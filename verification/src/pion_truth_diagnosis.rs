//! The decisions of the pion truth diagnosis that do not depend on
//! kinematics: charges by PDG convention, particle pools, candidate
//! categories and the final recommendation. Distances are measured by the
//! caller, which hands in the outcome of each threshold comparison.
use vstd::prelude::*;
use vstd::string::*;

use crate::tally::{
    count_in, first_seen, lemma_first_seen, lemma_occurrences_bounds, lemma_tally_push, merged, occurrences,
    presence, tally, NamedCounts,
};
use crate::text::str_eq;

verus! {

/// Electric-charge sign of the charged species the diagnosis knows by PDG
/// convention: leptons `11`, `13` are negative, the hadrons `211`, `321`,
/// `2212` positive, and antiparticles (negative codes) the opposite.
pub open spec fn charge_sign_of(pdg_id: i32) -> Option<i32> {
    if pdg_id == 11 || pdg_id == 13 {
        Some(-1i32)
    } else if pdg_id == -11 || pdg_id == -13 {
        Some(1i32)
    } else if pdg_id == 211 || pdg_id == 321 || pdg_id == 2212 {
        Some(1i32)
    } else if pdg_id == -211 || pdg_id == -321 || pdg_id == -2212 {
        Some(-1i32)
    } else {
        None
    }
}

/// Sign of an integer: `-1`, `0` or `1`.
pub open spec fn sign_of(x: i32) -> i32 {
    if x > 0 {
        1
    } else if x < 0 {
        -1i32
    } else {
        0
    }
}

/// The absolute value of a PDG code is one of `codes`.
pub open spec fn abs_in(pdg_id: i32, codes: Seq<i32>) -> bool {
    exists|i: int| 0 <= i < codes.len() && (pdg_id == codes[i] || pdg_id == -codes[i])
}

/// Charge sign of a particle by its PDG code, for the known charged species.
pub fn pdg_charge_sign(pdg_id: i32) -> (r: Option<i32>)
    ensures
        r == charge_sign_of(pdg_id),
{
    if pdg_id == 11 || pdg_id == 13 {
        Some(-1)
    } else if pdg_id == -11 || pdg_id == -13 {
        Some(1)
    } else if pdg_id == 211 || pdg_id == 321 || pdg_id == 2212 {
        Some(1)
    } else if pdg_id == -211 || pdg_id == -321 || pdg_id == -2212 {
        Some(-1)
    } else {
        None
    }
}

/// A known charged particle whose charge has the sign of `charge`.
pub fn same_charge(charge: i32, pdg_id: i32) -> (b: bool)
    ensures
        b == (charge_sign_of(pdg_id) == Some(sign_of(charge))),
{
    let sign: i32 = if charge > 0 {
        1
    } else if charge < 0 {
        -1
    } else {
        0
    };
    match pdg_charge_sign(pdg_id) {
        Some(s) => s == sign,
        None => false,
    }
}

/// Electrons, muons, charged pions, charged kaons and protons, and their antiparticles.
pub open spec fn known_charged(pdg_id: i32) -> bool {
    abs_in(pdg_id, seq![11i32, 13, 211, 321, 2212])
}

/// Charged pions, charged kaons and protons, and their antiparticles.
pub open spec fn charged_hadron(pdg_id: i32) -> bool {
    abs_in(pdg_id, seq![211i32, 321, 2212])
}

/// Whether the code is a known charged species (e, mu, pi, K, p or antiparticle).
pub fn is_known_charged(pdg_id: i32) -> (b: bool)
    ensures
        b == known_charged(pdg_id),
{
    let b = pdg_id == 11 || pdg_id == -11 || pdg_id == 13 || pdg_id == -13 || pdg_id == 211
        || pdg_id == -211 || pdg_id == 321 || pdg_id == -321 || pdg_id == 2212 || pdg_id == -2212;
    proof {
        let codes = seq![11i32, 13, 211, 321, 2212];
        if b {
            if pdg_id == 11 || pdg_id == -11 {
                assert(codes[0] == 11);
            } else if pdg_id == 13 || pdg_id == -13 {
                assert(codes[1] == 13);
            } else if pdg_id == 211 || pdg_id == -211 {
                assert(codes[2] == 211);
            } else if pdg_id == 321 || pdg_id == -321 {
                assert(codes[3] == 321);
            } else {
                assert(codes[4] == 2212);
            }
        }
    }
    b
}

/// Whether the code is a charged pion, kaon or proton, or an antiparticle of one.
pub fn is_charged_hadron(pdg_id: i32) -> (b: bool)
    ensures
        b == charged_hadron(pdg_id),
{
    let b = pdg_id == 211 || pdg_id == -211 || pdg_id == 321 || pdg_id == -321 || pdg_id == 2212
        || pdg_id == -2212;
    proof {
        let codes = seq![211i32, 321, 2212];
        if b {
            if pdg_id == 211 || pdg_id == -211 {
                assert(codes[0] == 211);
            } else if pdg_id == 321 || pdg_id == -321 {
                assert(codes[1] == 321);
            } else {
                assert(codes[2] == 2212);
            }
        }
    }
    b
}

/// A final-state (status 1) known charged particle with finite direction.
pub open spec fn charged_stable_like(pdg_id: i32, status: i32, finite: bool) -> bool {
    status == 1 && known_charged(pdg_id) && finite
}

/// Whether a particle is a final-state known charged species with finite direction.
pub fn is_charged_stable_like(pdg_id: i32, status: i32, finite: bool) -> (b: bool)
    ensures
        b == charged_stable_like(pdg_id, status, finite),
{
    status == 1 && is_known_charged(pdg_id) && finite
}

/// The pools a candidate leg is matched against, in order.
pub open spec fn pool_name(i: int) -> Seq<char> {
    if i == 0 {
        "pi_only_same_charge"@
    } else if i == 1 {
        "pi_only_opposite_charge"@
    } else if i == 2 {
        "any_charged_hadron_same_charge"@
    } else if i == 3 {
        "any_charged_stable_like_same_charge"@
    } else {
        "any_charged_particle_same_charge"@
    }
}

/// A particle of the given kind belongs to pool `pool` for a leg of charge `charge`.
pub open spec fn in_pool(pool: int, charge: i32, pdg_id: i32, status: i32, finite: bool) -> bool {
    if pool == 0 {
        pdg_id == 211 * charge
    } else if pool == 1 {
        pdg_id == -211 * charge
    } else if pool == 2 {
        charge_sign_of(pdg_id) == Some(sign_of(charge)) && charged_hadron(pdg_id)
    } else if pool == 3 {
        charge_sign_of(pdg_id) == Some(sign_of(charge)) && charged_stable_like(
            pdg_id,
            status,
            finite,
        )
    } else if pool == 4 {
        charge_sign_of(pdg_id) == Some(sign_of(charge)) && known_charged(pdg_id)
    } else {
        false
    }
}

/// Whether a particle belongs to the pool (numbered as `pool_name`) that a
/// leg of charge `charge` (which is `1` or `-1`) is matched against.
pub fn match_pool(pool: usize, charge: i32, pdg_id: i32, status: i32, finite: bool) -> (b: bool)
    requires
        charge == 1 || charge == -1,
    ensures
        b == in_pool(pool as int, charge, pdg_id, status, finite),
{
    if pool == 0 {
        pdg_id == 211 * charge
    } else if pool == 1 {
        pdg_id == -211 * charge
    } else if pool == 2 {
        same_charge(charge, pdg_id) && is_charged_hadron(pdg_id)
    } else if pool == 3 {
        same_charge(charge, pdg_id) && is_charged_stable_like(pdg_id, status, finite)
    } else if pool == 4 {
        same_charge(charge, pdg_id) && is_known_charged(pdg_id)
    } else {
        false
    }
}

/// Categories of a diagnosed candidate, from whether each leg matched a
/// same-charge generator pion below 0.10, whether both legs matched a charged
/// hadron and a stable-like charged particle below 0.10, and whether the
/// photon was matched.
pub open spec fn categories_of(
    photon_matched: bool,
    plus_pi: bool,
    minus_pi: bool,
    both_hadron: bool,
    both_stable: bool,
) -> Seq<Seq<char>> {
    let first = if plus_pi && minus_pi {
        "both_reco_pions_match_gen_pions_dr0p1"@
    } else if plus_pi {
        "only_plus_matches_gen_pion_dr0p1"@
    } else if minus_pi {
        "only_minus_matches_gen_pion_dr0p1"@
    } else {
        "no_gen_pion_match_dr0p1"@
    };
    let a = seq![first];
    let b = if both_hadron {
        a.push("both_match_any_charged_hadron_dr0p1"@)
    } else {
        a
    };
    let c = if both_stable {
        b.push("both_match_any_charged_stable_like_dr0p1"@)
    } else {
        b
    };
    if photon_matched && !(plus_pi && minus_pi) {
        c.push("photon_matched_but_no_pion_match"@)
    } else {
        c
    }
}

/// The names of a sequence of strings.
pub open spec fn names_of(v: Seq<String>) -> Seq<Seq<char>> {
    v.map_values(|s: String| s@)
}

/// The categories of a diagnosed candidate.
pub fn classify_candidate(
    photon_matched: bool,
    plus_pi: bool,
    minus_pi: bool,
    both_hadron: bool,
    both_stable: bool,
) -> (r: Vec<String>)
    ensures
        names_of(r@) == categories_of(photon_matched, plus_pi, minus_pi, both_hadron, both_stable),
{
    let mut r: Vec<String> = Vec::new();
    if plus_pi && minus_pi {
        r.push(String::from_str("both_reco_pions_match_gen_pions_dr0p1"));
    } else if plus_pi {
        r.push(String::from_str("only_plus_matches_gen_pion_dr0p1"));
    } else if minus_pi {
        r.push(String::from_str("only_minus_matches_gen_pion_dr0p1"));
    } else {
        r.push(String::from_str("no_gen_pion_match_dr0p1"));
    }
    if both_hadron {
        r.push(String::from_str("both_match_any_charged_hadron_dr0p1"));
    }
    if both_stable {
        r.push(String::from_str("both_match_any_charged_stable_like_dr0p1"));
    }
    if photon_matched && !(plus_pi && minus_pi) {
        r.push(String::from_str("photon_matched_but_no_pion_match"));
    }
    assert(names_of(r@) =~= categories_of(photon_matched, plus_pi, minus_pi, both_hadron, both_stable));
    r
}

/// The advice the diagnosis ends with, from the number of diagnosed
/// candidates, the candidates whose two legs both matched below 0.10 in the
/// same-charge pion pool and in the charged-hadron pool, and the number of
/// events with a generator pi+ and with a generator pi-.
pub open spec fn recommendation_text(
    diagnosed: u64,
    both_pion_0p10: u64,
    both_hadron_0p10: u64,
    events_with_pi_plus: u64,
    events_with_pi_minus: u64,
) -> Seq<char> {
    let total = if diagnosed > 1 {
        diagnosed as int
    } else {
        1
    };
    let events_with_pi = if events_with_pi_plus < events_with_pi_minus {
        events_with_pi_plus as int
    } else {
        events_with_pi_minus as int
    };
    if events_with_pi * 10 < total {
        "Use photon truth only until PackedGenPart or tracking truth can provide charged-pion truth."@
    } else if both_hadron_0p10 > both_pion_0p10 * 5 && both_hadron_0p10 > 0 {
        "Charged-hadron matching works better than pion-only matching; treat rho as a charged-candidate mass hypothesis."@
    } else if both_pion_0p10 == 0 {
        "GenPart charged particles are far from accepted reco pions; survey PackedGenPart or tracking truth next."@
    } else {
        "GenPart pions exist but matching is sparse; use this as a diagnostic only before any cut study."@
    }
}

/// The advice the diagnosis ends with. The products it compares must not
/// overflow where they are computed.
pub fn recommendation_from_counts(
    diagnosed: u64,
    both_pion_0p10: u64,
    both_hadron_0p10: u64,
    events_with_pi_plus: u64,
    events_with_pi_minus: u64,
) -> (r: &'static str)
    requires
        (if events_with_pi_plus < events_with_pi_minus {
            events_with_pi_plus
        } else {
            events_with_pi_minus
        }) * 10 <= u64::MAX,
        (if events_with_pi_plus < events_with_pi_minus {
            events_with_pi_plus
        } else {
            events_with_pi_minus
        }) * 10 < (if diagnosed > 1 {
            diagnosed
        } else {
            1
        }) || both_pion_0p10 * 5 <= u64::MAX,
    ensures
        r@ == recommendation_text(
            diagnosed,
            both_pion_0p10,
            both_hadron_0p10,
            events_with_pi_plus,
            events_with_pi_minus,
        ),
{
    let total = if diagnosed > 1 {
        diagnosed
    } else {
        1
    };
    let events_with_pi = if events_with_pi_plus < events_with_pi_minus {
        events_with_pi_plus
    } else {
        events_with_pi_minus
    };
    if events_with_pi * 10 < total {
        "Use photon truth only until PackedGenPart or tracking truth can provide charged-pion truth."
    } else if both_hadron_0p10 > both_pion_0p10 * 5 && both_hadron_0p10 > 0 {
        "Charged-hadron matching works better than pion-only matching; treat rho as a charged-candidate mass hypothesis."
    } else if both_pion_0p10 == 0 {
        "GenPart charged particles are far from accepted reco pions; survey PackedGenPart or tracking truth next."
    } else {
        "GenPart pions exist but matching is sparse; use this as a diagnostic only before any cut study."
    }
}

/// What the pool breakdown reads of a generator particle: its code and
/// status, and the outcome of each kinematic test (a positive `pt` with
/// finite `eta` and `phi`; `pt` above 0.1, 0.5 and 1.0; `|eta|` below 2.5).
#[derive(Clone, Copy, Debug, PartialEq, Eq)]
pub struct BreakdownInputs {
    pub pdg_id: i32,
    pub status: i32,
    pub finite: bool,
    pub pt_above_0p1: bool,
    pub pt_above_0p5: bool,
    pub pt_above_1p0: bool,
    pub eta_within_2p5: bool,
}

/// The breakdown pools of a charged pion of the given sign suffix.
pub open spec fn pion_pools(x: BreakdownInputs, sign: Seq<char>) -> Seq<Seq<char>> {
    let a = seq!["all_pi_"@ + sign];
    let b = if x.finite {
        a.push("finite_pi_"@ + sign)
    } else {
        a
    };
    let c = if x.status == 1 {
        let c1 = b.push("status1_pi_"@ + sign);
        if x.finite {
            c1.push("status1_finite_pi_"@ + sign)
        } else {
            c1
        }
    } else {
        b
    };
    let d = if x.pt_above_0p1 {
        c.push("pt_gt_0p1_pi_"@ + sign)
    } else {
        c
    };
    let e = if x.pt_above_0p5 {
        d.push("pt_gt_0p5_pi_"@ + sign)
    } else {
        d
    };
    let f = if x.pt_above_1p0 {
        e.push("pt_gt_1p0_pi_"@ + sign)
    } else {
        e
    };
    let g = if x.eta_within_2p5 {
        f.push("eta_lt_2p5_pi_"@ + sign)
    } else {
        f
    };
    g.push("charged_pions"@)
}

/// The pools of the breakdown that a generator particle falls in, in order.
pub open spec fn breakdown_of(x: BreakdownInputs) -> Seq<Seq<char>> {
    let p = x.pdg_id;
    let species = if p == 211 {
        pion_pools(x, "plus"@)
    } else if p == -211 {
        pion_pools(x, "minus"@)
    } else if p == 321 || p == -321 {
        seq!["charged_kaons"@]
    } else if p == 2212 || p == -2212 {
        seq!["protons"@]
    } else if p == 11 || p == -11 || p == 13 || p == -13 {
        seq!["charged_leptons"@]
    } else {
        Seq::empty()
    };
    let h = if charged_hadron(p) {
        species.push("any_charged_hadron"@)
    } else {
        species
    };
    if charged_stable_like(p, x.status, x.finite) {
        h.push("any_charged_stable_like"@)
    } else {
        h
    }
}

/// The texts of a list of string slices.
pub open spec fn texts_of(v: Seq<&str>) -> Seq<Seq<char>> {
    v.map_values(|s: &str| s@)
}

proof fn lemma_texts_push(v: Seq<&str>, s: &str)
    ensures
        texts_of(v.push(s)) == texts_of(v).push(s@),
{
    assert(texts_of(v.push(s)) =~= texts_of(v).push(s@));
}

fn push_pool(pools: &mut Vec<&'static str>, name: &'static str)
    ensures
        texts_of(final(pools)@) == texts_of(old(pools)@).push(name@),
{
    proof {
        lemma_texts_push(pools@, name);
    }
    pools.push(name);
}

fn push_pion_pools(pools: &mut Vec<&'static str>, x: BreakdownInputs, plus: bool)
    requires
        old(pools)@.len() == 0,
    ensures
        texts_of(final(pools)@) == pion_pools(
            x,
            if plus {
                "plus"@
            } else {
                "minus"@
            },
        ),
{
    let ghost sign = if plus {
        "plus"@
    } else {
        "minus"@
    };
    proof {
        reveal_strlit("plus");
        reveal_strlit("minus");
        reveal_strlit("all_pi_");
        reveal_strlit("finite_pi_");
        reveal_strlit("status1_pi_");
        reveal_strlit("status1_finite_pi_");
        reveal_strlit("pt_gt_0p1_pi_");
        reveal_strlit("pt_gt_0p5_pi_");
        reveal_strlit("pt_gt_1p0_pi_");
        reveal_strlit("eta_lt_2p5_pi_");
        reveal_strlit("all_pi_plus");
        reveal_strlit("all_pi_minus");
        reveal_strlit("finite_pi_plus");
        reveal_strlit("finite_pi_minus");
        reveal_strlit("status1_pi_plus");
        reveal_strlit("status1_pi_minus");
        reveal_strlit("status1_finite_pi_plus");
        reveal_strlit("status1_finite_pi_minus");
        reveal_strlit("pt_gt_0p1_pi_plus");
        reveal_strlit("pt_gt_0p1_pi_minus");
        reveal_strlit("pt_gt_0p5_pi_plus");
        reveal_strlit("pt_gt_0p5_pi_minus");
        reveal_strlit("pt_gt_1p0_pi_plus");
        reveal_strlit("pt_gt_1p0_pi_minus");
        reveal_strlit("eta_lt_2p5_pi_plus");
        reveal_strlit("eta_lt_2p5_pi_minus");
        assert("all_pi_"@ + "plus"@ =~= "all_pi_plus"@);
        assert("all_pi_"@ + "minus"@ =~= "all_pi_minus"@);
        assert("finite_pi_"@ + "plus"@ =~= "finite_pi_plus"@);
        assert("finite_pi_"@ + "minus"@ =~= "finite_pi_minus"@);
        assert("status1_pi_"@ + "plus"@ =~= "status1_pi_plus"@);
        assert("status1_pi_"@ + "minus"@ =~= "status1_pi_minus"@);
        assert("status1_finite_pi_"@ + "plus"@ =~= "status1_finite_pi_plus"@);
        assert("status1_finite_pi_"@ + "minus"@ =~= "status1_finite_pi_minus"@);
        assert("pt_gt_0p1_pi_"@ + "plus"@ =~= "pt_gt_0p1_pi_plus"@);
        assert("pt_gt_0p1_pi_"@ + "minus"@ =~= "pt_gt_0p1_pi_minus"@);
        assert("pt_gt_0p5_pi_"@ + "plus"@ =~= "pt_gt_0p5_pi_plus"@);
        assert("pt_gt_0p5_pi_"@ + "minus"@ =~= "pt_gt_0p5_pi_minus"@);
        assert("pt_gt_1p0_pi_"@ + "plus"@ =~= "pt_gt_1p0_pi_plus"@);
        assert("pt_gt_1p0_pi_"@ + "minus"@ =~= "pt_gt_1p0_pi_minus"@);
        assert("eta_lt_2p5_pi_"@ + "plus"@ =~= "eta_lt_2p5_pi_plus"@);
        assert("eta_lt_2p5_pi_"@ + "minus"@ =~= "eta_lt_2p5_pi_minus"@);
        assert(texts_of(pools@) =~= Seq::<Seq<char>>::empty());
    }
    push_pool(pools, if plus { "all_pi_plus" } else { "all_pi_minus" });
    if x.finite {
        push_pool(pools, if plus { "finite_pi_plus" } else { "finite_pi_minus" });
    }
    if x.status == 1 {
        push_pool(pools, if plus { "status1_pi_plus" } else { "status1_pi_minus" });
        if x.finite {
            push_pool(pools, if plus { "status1_finite_pi_plus" } else { "status1_finite_pi_minus" });
        }
    }
    if x.pt_above_0p1 {
        push_pool(pools, if plus { "pt_gt_0p1_pi_plus" } else { "pt_gt_0p1_pi_minus" });
    }
    if x.pt_above_0p5 {
        push_pool(pools, if plus { "pt_gt_0p5_pi_plus" } else { "pt_gt_0p5_pi_minus" });
    }
    if x.pt_above_1p0 {
        push_pool(pools, if plus { "pt_gt_1p0_pi_plus" } else { "pt_gt_1p0_pi_minus" });
    }
    if x.eta_within_2p5 {
        push_pool(pools, if plus { "eta_lt_2p5_pi_plus" } else { "eta_lt_2p5_pi_minus" });
    }
    push_pool(pools, "charged_pions");
}

/// The pools of the breakdown that a generator particle falls in: the
/// per-sign pion pools (all, finite, status 1, status 1 and finite, the
/// three pt thresholds, |eta| < 2.5, then charged_pions), or the kaon,
/// proton or charged-lepton pool, then any_charged_hadron and
/// any_charged_stable_like where they apply.
pub fn breakdown_pools(x: BreakdownInputs) -> (pools: Vec<&'static str>)
    ensures
        texts_of(pools@) == breakdown_of(x),
{
    let mut pools: Vec<&'static str> = Vec::new();
    let p = x.pdg_id;
    if p == 211 {
        push_pion_pools(&mut pools, x, true);
    } else if p == -211 {
        push_pion_pools(&mut pools, x, false);
    } else {
        assert(texts_of(pools@) =~= Seq::<Seq<char>>::empty());
        if p == 321 || p == -321 {
            push_pool(&mut pools, "charged_kaons");
        } else if p == 2212 || p == -2212 {
            push_pool(&mut pools, "protons");
        } else if p == 11 || p == -11 || p == 13 || p == -13 {
            push_pool(&mut pools, "charged_leptons");
        }
        assert(texts_of(pools@) =~= (if p == 321 || p == -321 {
            seq!["charged_kaons"@]
        } else if p == 2212 || p == -2212 {
            seq!["protons"@]
        } else if p == 11 || p == -11 || p == 13 || p == -13 {
            seq!["charged_leptons"@]
        } else {
            Seq::<Seq<char>>::empty()
        }));
    }
    if is_charged_hadron(p) {
        push_pool(&mut pools, "any_charged_hadron");
    }
    if is_charged_stable_like(p, x.status, x.finite) {
        push_pool(&mut pools, "any_charged_stable_like");
    }
    pools
}

/// The pools of all the particles, one particle after the other.
pub open spec fn breakdown_all(ps: Seq<BreakdownInputs>) -> Seq<Seq<char>>
    decreases ps.len(),
{
    if ps.len() == 0 {
        Seq::empty()
    } else {
        breakdown_all(ps.drop_last()) + breakdown_of(ps.last())
    }
}

/// The pool names of a list of pools and counts.
pub open spec fn pool_names(v: Seq<(&str, u64)>) -> Seq<Seq<char>> {
    v.map_values(|e: (&str, u64)| e.0@)
}

proof fn lemma_breakdown_len(x: BreakdownInputs)
    ensures
        breakdown_of(x).len() <= 11,
{
}

proof fn lemma_breakdown_all_len(ps: Seq<BreakdownInputs>)
    ensures
        breakdown_all(ps).len() <= 11 * ps.len(),
    decreases ps.len(),
{
    if ps.len() > 0 {
        lemma_breakdown_all_len(ps.drop_last());
        lemma_breakdown_len(ps.last());
    }
}

/// Where in `v` the pool `name` is counted, if anywhere.
fn find_pool(v: &Vec<(&'static str, u64)>, name: &str) -> (r: Option<usize>)
    ensures
        r matches Some(j) ==> j < v@.len() && v@[j as int].0@ == name@,
        r is None ==> forall|j: int| 0 <= j < v@.len() ==> v@[j].0@ != name@,
{
    let mut j: usize = 0;
    while j < v.len()
        invariant
            j <= v@.len(),
            forall|i: int| 0 <= i < j ==> v@[i].0@ != name@,
        decreases v.len() - j,
    {
        if str_eq(v[j].0, name) {
            return Some(j);
        }
        j += 1;
    }
    None
}

/// The pool breakdown of an event's generator particles: each pool that some
/// particle falls in, once and in the order pools are first met, with the
/// number of particles in it.
pub fn pool_breakdown(particles: &[BreakdownInputs]) -> (r: Vec<(&'static str, u64)>)
    requires
        11 * particles@.len() <= u64::MAX,
    ensures
        pool_names(r@) == first_seen(breakdown_all(particles@)),
        forall|j: int| 0 <= j < r@.len() ==> #[trigger] r@[j].1 == occurrences(breakdown_all(particles@), r@[j].0@),
        pool_names(r@).no_duplicates(),
        forall|name: Seq<char>| #[trigger] pool_names(r@).contains(name) <==> breakdown_all(particles@).contains(name),
{
    let ghost ps = particles@;
    let mut r: Vec<(&'static str, u64)> = Vec::new();
    let mut i: usize = 0;
    let ghost mut keys: Seq<Seq<char>> = Seq::empty();
    assert(pool_names(r@) =~= first_seen(keys));
    while i < particles.len()
        invariant
            ps == particles@,
            11 * ps.len() <= u64::MAX,
            i <= ps.len(),
            keys == breakdown_all(ps.subrange(0, i as int)),
            keys.len() <= 11 * i,
            pool_names(r@) == first_seen(keys),
            forall|j: int| 0 <= j < r@.len() ==> #[trigger] r@[j].1 == occurrences(keys, r@[j].0@),
        decreases ps.len() - i,
    {
        let pools = breakdown_pools(particles[i]);
        let ghost bd = breakdown_of(ps[i as int]);
        let ghost start = keys;
        proof {
            lemma_breakdown_len(ps[i as int]);
            assert(texts_of(pools@) == bd);
        }
        let mut m: usize = 0;
        while m < pools.len()
            invariant
                ps == particles@,
                11 * ps.len() <= u64::MAX,
                i < ps.len(),
                start.len() <= 11 * i,
                bd.len() <= 11,
                texts_of(pools@) == bd,
                m <= pools@.len(),
                keys == start + bd.subrange(0, m as int),
                pool_names(r@) == first_seen(keys),
                forall|j: int| 0 <= j < r@.len() ==> #[trigger] r@[j].1 == occurrences(keys, r@[j].0@),
            decreases pools.len() - m,
        {
            let name = pools[m];
            let ghost before = keys;
            proof {
                assert(bd[m as int] == name@);
                keys = keys.push(name@);
                assert(keys =~= start + bd.subrange(0, m + 1));
                assert(keys.drop_last() =~= before);
                lemma_first_seen(before);
                lemma_occurrences_bounds(before, name@);
            }
            let ghost names = pool_names(r@);
            match find_pool(&r, name) {
                Some(j) => {
                    proof {
                        assert(names[j as int] == name@);
                        assert(names.contains(name@));
                    }
                    let (pool, count) = r[j];
                    r.set(j, (pool, count + 1));
                    proof {
                        assert(pool_names(r@) =~= names);
                        assert forall|j2: int| 0 <= j2 < r@.len() implies #[trigger] r@[j2].1 == occurrences(
                            keys,
                            r@[j2].0@,
                        ) by {
                            if j2 != j {
                                assert(names[j2] == r@[j2].0@);
                                assert(names[j2] != names[j as int]);
                            }
                        }
                    }
                },
                None => {
                    proof {
                        assert(!names.contains(name@)) by {
                            if names.contains(name@) {
                                let j = choose|j: int| 0 <= j < names.len() && names[j] == name@;
                                assert(r@[j].0@ == name@);
                            }
                        }
                        assert(occurrences(before, name@) == 0);
                    }
                    r.push((name, 1));
                    proof {
                        assert(pool_names(r@) =~= names.push(name@));
                        assert forall|j2: int| 0 <= j2 < r@.len() implies #[trigger] r@[j2].1 == occurrences(
                            keys,
                            r@[j2].0@,
                        ) by {
                            if j2 < names.len() {
                                assert(names[j2] == r@[j2].0@);
                                assert(names.contains(names[j2]));
                            }
                        }
                    }
                },
            }
            m += 1;
        }
        proof {
            assert(bd.subrange(0, pools@.len() as int) =~= bd);
            assert(ps.subrange(0, i + 1).drop_last() =~= ps.subrange(0, i as int));
            assert(ps.subrange(0, i + 1).last() == ps[i as int]);
        }
        i += 1;
    }
    proof {
        assert(ps.subrange(0, ps.len() as int) =~= ps);
        lemma_first_seen(keys);
    }
    r
}

/// Counts an event's generator particles into the pool tables: each pool
/// gains its number of particles in `particle_counts` and one event in
/// `event_counts`.
pub fn count_pool_breakdown(
    particle_counts: &mut NamedCounts,
    event_counts: &mut NamedCounts,
    particles: &[BreakdownInputs],
)
    requires
        11 * particles@.len() <= u64::MAX,
        forall|k: Seq<char>| #[trigger] count_in(old(particle_counts)@, k) + 11 * particles@.len() <= u64::MAX,
        forall|k: Seq<char>| #[trigger] count_in(old(event_counts)@, k) < u64::MAX,
    ensures
        final(particle_counts)@ == merged(old(particle_counts)@, tally(breakdown_all(particles@))),
        final(event_counts)@ == merged(old(event_counts)@, presence(breakdown_all(particles@))),
{
    let ghost ps = particles@;
    let ghost flat = breakdown_all(ps);
    let ghost p0 = particle_counts@;
    let ghost e0 = event_counts@;
    let r = pool_breakdown(particles);
    let ghost names = pool_names(r@);
    proof {
        lemma_breakdown_all_len(ps);
        assert(merged(p0, Map::new(|k: Seq<char>| names.take(0).contains(k), |k: Seq<char>| occurrences(flat, k) as u64)) =~= p0);
        assert(merged(e0, Map::new(|k: Seq<char>| names.take(0).contains(k), |k: Seq<char>| 1u64)) =~= e0);
    }
    let mut j: usize = 0;
    while j < r.len()
        invariant
            ps == particles@,
            flat == breakdown_all(ps),
            flat.len() <= 11 * ps.len(),
            names == pool_names(r@),
            names.no_duplicates(),
            forall|name: Seq<char>| #[trigger] names.contains(name) <==> flat.contains(name),
            forall|i: int| 0 <= i < r@.len() ==> #[trigger] r@[i].1 == occurrences(flat, r@[i].0@),
            forall|k: Seq<char>| #[trigger] count_in(p0, k) + 11 * ps.len() <= u64::MAX,
            forall|k: Seq<char>| #[trigger] count_in(e0, k) < u64::MAX,
            j <= r@.len(),
            particle_counts@ == merged(
                p0,
                Map::new(|k: Seq<char>| names.take(j as int).contains(k), |k: Seq<char>| occurrences(flat, k) as u64),
            ),
            event_counts@ == merged(e0, Map::new(|k: Seq<char>| names.take(j as int).contains(k), |k: Seq<char>| 1u64)),
        decreases r.len() - j,
    {
        let (name, c) = r[j];
        let ghost nm = name@;
        let ghost before = names.take(j as int);
        let ghost after = names.take(j + 1);
        proof {
            assert(names[j as int] == nm);
            assert(!before.contains(nm)) by {
                if before.contains(nm) {
                    let i = choose|i: int| 0 <= i < before.len() && before[i] == nm;
                    assert(names[i] == names[j as int]);
                }
            }
            assert forall|k: Seq<char>| #[trigger] after.contains(k) <==> (before.contains(k) || k == nm) by {
                if after.contains(k) && k != nm {
                    let i = choose|i: int| 0 <= i < after.len() && after[i] == k;
                    assert(before[i] == k);
                }
                if before.contains(k) {
                    let i = choose|i: int| 0 <= i < before.len() && before[i] == k;
                    assert(after[i] == k);
                }
                if k == nm {
                    assert(after[j as int] == k);
                }
            }
            assert(r@[j as int].1 == occurrences(flat, nm));
            lemma_occurrences_bounds(flat, nm);
            assert(count_in(p0, nm) + 11 * ps.len() <= u64::MAX);
            assert(count_in(e0, nm) < u64::MAX);
        }
        particle_counts.add(name, c);
        event_counts.add(name, 1);
        proof {
            assert(particle_counts@ =~= merged(
                p0,
                Map::new(|k: Seq<char>| after.contains(k), |k: Seq<char>| occurrences(flat, k) as u64),
            ));
            assert(event_counts@ =~= merged(e0, Map::new(|k: Seq<char>| after.contains(k), |k: Seq<char>| 1u64)));
        }
        j += 1;
    }
    proof {
        assert(names.take(r@.len() as int) =~= names);
        assert(particle_counts@ =~= merged(p0, tally(flat)));
        assert(event_counts@ =~= merged(e0, presence(flat)));
    }
}

/// Counts a candidate's categories into the category table.
pub fn count_categories(counts: &mut NamedCounts, categories: &Vec<String>)
    requires
        forall|k: Seq<char>| #[trigger] count_in(old(counts)@, k) + categories@.len() <= u64::MAX,
    ensures
        final(counts)@ == merged(old(counts)@, tally(names_of(categories@))),
{
    let ghost c0 = counts@;
    let ghost all = names_of(categories@);
    proof {
        assert(all.take(0) =~= Seq::<Seq<char>>::empty());
        assert(merged(c0, tally(all.take(0))) =~= c0);
    }
    let mut i: usize = 0;
    while i < categories.len()
        invariant
            all == names_of(categories@),
            forall|k: Seq<char>| #[trigger] count_in(c0, k) + categories@.len() <= u64::MAX,
            i <= categories@.len(),
            counts@ == merged(c0, tally(all.take(i as int))),
        decreases categories.len() - i,
    {
        let name = categories[i].as_str();
        let ghost s = all.take(i as int);
        let ghost k = name@;
        proof {
            assert(all[i as int] == k);
            lemma_occurrences_bounds(s, k);
            assert(count_in(c0, k) + categories@.len() <= u64::MAX);
            assert(all.take(i + 1) =~= s.push(k));
            lemma_tally_push(s, k);
        }
        counts.add(name, 1);
        proof {
            assert(counts@ =~= merged(c0, tally(all.take(i + 1))));
        }
        i += 1;
    }
    proof {
        assert(all.take(categories@.len() as int) =~= all);
    }
}

/// Charge conjugation: an antiparticle (the negated code) of a known charged
/// species has the opposite charge sign, and an unknown code stays unknown.
pub proof fn law_antiparticle_has_opposite_charge(pdg_id: i32)
    requires
        pdg_id != i32::MIN,
    ensures
        charge_sign_of(-pdg_id as i32) == match charge_sign_of(pdg_id) {
            Some(c) => Some(-c as i32),
            None => None,
        },
        known_charged(pdg_id) <==> charge_sign_of(pdg_id) is Some,
{
    let codes = seq![11i32, 13, 211, 321, 2212];
    if known_charged(pdg_id) {
        let i = choose|i: int| 0 <= i < codes.len() && (pdg_id == codes[i] || pdg_id == -codes[i]);
        assert(i == 0 || i == 1 || i == 2 || i == 3 || i == 4);
    }
    if charge_sign_of(pdg_id) is Some {
        if pdg_id == 11 || pdg_id == -11 {
            assert(codes[0] == 11);
        } else if pdg_id == 13 || pdg_id == -13 {
            assert(codes[1] == 13);
        } else if pdg_id == 211 || pdg_id == -211 {
            assert(codes[2] == 211);
        } else if pdg_id == 321 || pdg_id == -321 {
            assert(codes[3] == 321);
        } else {
            assert(codes[4] == 2212);
        }
    }
}

/// The pion pools nest: every charged pion is in its all_pi pool and in
/// charged_pions, a status-1 finite pion is also in the status-1 and the
/// finite pools, a pion above a pt threshold is above every lower one, and a
/// stable-like charged particle is a known charged species of status 1.
pub proof fn law_breakdown_pools_nest(x: BreakdownInputs)
    requires
        x.pt_above_1p0 ==> x.pt_above_0p5,
        x.pt_above_0p5 ==> x.pt_above_0p1,
    ensures
        x.pdg_id == 211 ==> breakdown_of(x).contains("all_pi_plus"@) && breakdown_of(x).contains(
            "charged_pions"@,
        ),
        x.pdg_id == -211i32 ==> breakdown_of(x).contains("all_pi_minus"@) && breakdown_of(x).contains(
            "charged_pions"@,
        ),
        x.pdg_id == 211 && x.status == 1 && x.finite ==> breakdown_of(x).contains("status1_finite_pi_plus"@)
            && breakdown_of(x).contains("status1_pi_plus"@) && breakdown_of(x).contains("finite_pi_plus"@),
        x.pdg_id == 211 && x.pt_above_1p0 ==> breakdown_of(x).contains("pt_gt_1p0_pi_plus"@) && breakdown_of(
            x,
        ).contains("pt_gt_0p5_pi_plus"@) && breakdown_of(x).contains("pt_gt_0p1_pi_plus"@),
        breakdown_of(x).contains("any_charged_stable_like"@) ==> x.status == 1 && x.finite && known_charged(
            x.pdg_id,
        ),
        x.pdg_id == 211 || x.pdg_id == -211i32 ==> breakdown_of(x).contains("any_charged_hadron"@),
{
    reveal_strlit("plus");
    reveal_strlit("minus");
    reveal_strlit("all_pi_");
    reveal_strlit("all_pi_plus");
    reveal_strlit("all_pi_minus");
    reveal_strlit("finite_pi_");
    reveal_strlit("finite_pi_plus");
    reveal_strlit("status1_pi_");
    reveal_strlit("status1_pi_plus");
    reveal_strlit("status1_finite_pi_");
    reveal_strlit("status1_finite_pi_plus");
    reveal_strlit("pt_gt_0p1_pi_");
    reveal_strlit("pt_gt_0p1_pi_plus");
    reveal_strlit("pt_gt_0p5_pi_");
    reveal_strlit("pt_gt_0p5_pi_plus");
    reveal_strlit("pt_gt_1p0_pi_");
    reveal_strlit("pt_gt_1p0_pi_plus");
    reveal_strlit("eta_lt_2p5_pi_");
    reveal_strlit("charged_pions");
    reveal_strlit("charged_kaons");
    reveal_strlit("protons");
    reveal_strlit("charged_leptons");
    reveal_strlit("any_charged_hadron");
    reveal_strlit("any_charged_stable_like");
    let b = breakdown_of(x);
    let p = x.pdg_id;
    if p == 211 || p == -211i32 {
        assert(charged_hadron(p)) by {
            assert(seq![211i32, 321, 2212][0] == 211);
        }
    }
    if p == 211 {
        let sign = "plus"@;
        assert("all_pi_"@ + sign =~= "all_pi_plus"@);
        assert("finite_pi_"@ + sign =~= "finite_pi_plus"@);
        assert("status1_pi_"@ + sign =~= "status1_pi_plus"@);
        assert("status1_finite_pi_"@ + sign =~= "status1_finite_pi_plus"@);
        assert("pt_gt_0p1_pi_"@ + sign =~= "pt_gt_0p1_pi_plus"@);
        assert("pt_gt_0p5_pi_"@ + sign =~= "pt_gt_0p5_pi_plus"@);
        assert("pt_gt_1p0_pi_"@ + sign =~= "pt_gt_1p0_pi_plus"@);
        let pools = pion_pools(x, sign);
        assert(pools[0] == "all_pi_plus"@);
        assert(pools.last() == "charged_pions"@);
        assert(b[0] == pools[0]);
        assert(b[pools.len() - 1] == pools.last());
        if x.status == 1 && x.finite {
            assert(pools[1] == "finite_pi_plus"@);
            assert(pools[2] == "status1_pi_plus"@);
            assert(pools[3] == "status1_finite_pi_plus"@);
            assert(b[1] == pools[1] && b[2] == pools[2] && b[3] == pools[3]);
        }
        if x.pt_above_1p0 {
            let k = pools.len() - 2 - if x.eta_within_2p5 { 1int } else { 0int };
            assert(pools[k] == "pt_gt_1p0_pi_plus"@);
            assert(pools[k - 1] == "pt_gt_0p5_pi_plus"@);
            assert(pools[k - 2] == "pt_gt_0p1_pi_plus"@);
            assert(b[k] == pools[k] && b[k - 1] == pools[k - 1] && b[k - 2] == pools[k - 2]);
        }
    }
    if p == -211i32 {
        let sign = "minus"@;
        assert("all_pi_"@ + sign =~= "all_pi_minus"@);
        let pools = pion_pools(x, sign);
        assert(pools[0] == "all_pi_minus"@);
        assert(pools.last() == "charged_pions"@);
        assert(b[0] == pools[0]);
        assert(b[pools.len() - 1] == pools.last());
    }
    if b.contains("any_charged_stable_like"@) {
        let i = choose|i: int| 0 <= i < b.len() && b[i] == "any_charged_stable_like"@;
        if !charged_stable_like(p, x.status, x.finite) {
            assert(b[i][4] != "any_charged_stable_like"@[4] || b[i].len() != "any_charged_stable_like"@.len()
                || b[i][8] != "any_charged_stable_like"@[8]);
        }
    }
    if p == 211 || p == -211i32 {
        let h = if p == 211 { pion_pools(x, "plus"@) } else { pion_pools(x, "minus"@) };
        assert(b.contains("any_charged_hadron"@)) by {
            assert(b[h.len() as int] == "any_charged_hadron"@);
        }
    }
}

/// The categories of a candidate say how it matched: the pion-match
/// category is "both" exactly when both legs matched a same-charge
/// generator pion, "only plus" or "only minus" when just that leg did, and
/// "none" when neither did; the charged-hadron and stable-like categories
/// are present exactly when both legs matched such particles; the
/// photon-without-pions category is present exactly when the photon matched
/// and not both legs did; and nothing else is listed.
pub proof fn law_candidate_categories(
    photon_matched: bool,
    plus_pi: bool,
    minus_pi: bool,
    both_hadron: bool,
    both_stable: bool,
)
    ensures
        ({
            let c = categories_of(photon_matched, plus_pi, minus_pi, both_hadron, both_stable);
            &&& c.contains("both_reco_pions_match_gen_pions_dr0p1"@) <==> plus_pi && minus_pi
            &&& c.contains("only_plus_matches_gen_pion_dr0p1"@) <==> plus_pi && !minus_pi
            &&& c.contains("only_minus_matches_gen_pion_dr0p1"@) <==> !plus_pi && minus_pi
            &&& c.contains("no_gen_pion_match_dr0p1"@) <==> !plus_pi && !minus_pi
            &&& c.contains("both_match_any_charged_hadron_dr0p1"@) <==> both_hadron
            &&& c.contains("both_match_any_charged_stable_like_dr0p1"@) <==> both_stable
            &&& c.contains("photon_matched_but_no_pion_match"@) <==> photon_matched && !(plus_pi && minus_pi)
            &&& c.len() == 1 + (if both_hadron { 1int } else { 0 }) + (if both_stable { 1int } else { 0 }) + (
            if photon_matched && !(plus_pi && minus_pi) {
                1int
            } else {
                0
            })
        }),
{
    reveal_strlit("both_reco_pions_match_gen_pions_dr0p1");
    reveal_strlit("only_plus_matches_gen_pion_dr0p1");
    reveal_strlit("only_minus_matches_gen_pion_dr0p1");
    reveal_strlit("no_gen_pion_match_dr0p1");
    reveal_strlit("both_match_any_charged_hadron_dr0p1");
    reveal_strlit("both_match_any_charged_stable_like_dr0p1");
    reveal_strlit("photon_matched_but_no_pion_match");
    assert("both_reco_pions_match_gen_pions_dr0p1"@.len() == 37);
    assert("only_plus_matches_gen_pion_dr0p1"@.len() == 32);
    assert("only_minus_matches_gen_pion_dr0p1"@.len() == 33);
    assert("no_gen_pion_match_dr0p1"@.len() == 23);
    assert("both_match_any_charged_hadron_dr0p1"@.len() == 35);
    assert("both_match_any_charged_stable_like_dr0p1"@.len() == 40);
    assert("photon_matched_but_no_pion_match"@.len() == 32);
    assert("only_plus_matches_gen_pion_dr0p1"@[0] != "photon_matched_but_no_pion_match"@[0]);
    let first = if plus_pi && minus_pi {
        "both_reco_pions_match_gen_pions_dr0p1"@
    } else if plus_pi {
        "only_plus_matches_gen_pion_dr0p1"@
    } else if minus_pi {
        "only_minus_matches_gen_pion_dr0p1"@
    } else {
        "no_gen_pion_match_dr0p1"@
    };
    let a = seq![first];
    let b = if both_hadron {
        a.push("both_match_any_charged_hadron_dr0p1"@)
    } else {
        a
    };
    let c = if both_stable {
        b.push("both_match_any_charged_stable_like_dr0p1"@)
    } else {
        b
    };
    let d = if photon_matched && !(plus_pi && minus_pi) {
        c.push("photon_matched_but_no_pion_match"@)
    } else {
        c
    };
    assert(d == categories_of(photon_matched, plus_pi, minus_pi, both_hadron, both_stable));
    assert forall|t: Seq<char>| a.contains(t) <==> t == first by {
        if t == first {
            assert(a[0] == t);
        }
    }
    assert forall|t: Seq<char>| #![auto] b.contains(t) <==> (a.contains(t) || (both_hadron && t
        == "both_match_any_charged_hadron_dr0p1"@)) by {
        lemma_push_contains(a, "both_match_any_charged_hadron_dr0p1"@, t);
    }
    assert forall|t: Seq<char>| #![auto] c.contains(t) <==> (b.contains(t) || (both_stable && t
        == "both_match_any_charged_stable_like_dr0p1"@)) by {
        lemma_push_contains(b, "both_match_any_charged_stable_like_dr0p1"@, t);
    }
    assert forall|t: Seq<char>| #![auto] d.contains(t) <==> (c.contains(t) || (photon_matched && !(plus_pi
        && minus_pi) && t == "photon_matched_but_no_pion_match"@)) by {
        lemma_push_contains(c, "photon_matched_but_no_pion_match"@, t);
    }
}

/// A sequence with one more element contains what it contained and that element.
proof fn lemma_push_contains(s: Seq<Seq<char>>, e: Seq<char>, t: Seq<char>)
    ensures
        s.push(e).contains(t) <==> (s.contains(t) || e == t),
{
    if s.contains(t) {
        let i = choose|i: int| 0 <= i < s.len() && s[i] == t;
        assert(s.push(e)[i] == t);
    }
    if e == t {
        assert(s.push(e)[s.len() as int] == t);
    }
    if s.push(e).contains(t) && e != t {
        let i = choose|i: int| 0 <= i < s.len() + 1 && s.push(e)[i] == t;
        assert(s[i] == t);
    }
}

/// The closing advice, by its conditions: photon truth only exactly when
/// either charged pion is seen in fewer than a tenth of the diagnosed
/// candidates (at least one); else charged-hadron matching when it matched
/// more than five times as many candidates as pion matching, and some; else
/// the advice to survey other truth when pion matching matched none; else
/// the sparse-matching advice. The advice does not depend on which of the
/// two pion event counts is which.
pub proof fn law_pion_advice(
    diagnosed: u64,
    both_pion_0p10: u64,
    both_hadron_0p10: u64,
    events_with_pi_plus: u64,
    events_with_pi_minus: u64,
)
    ensures
        ({
            let r = recommendation_text(
                diagnosed,
                both_pion_0p10,
                both_hadron_0p10,
                events_with_pi_plus,
                events_with_pi_minus,
            );
            let scarce = events_with_pi_plus == 0 || events_with_pi_minus == 0 || 10 * events_with_pi_plus
                < diagnosed || 10 * events_with_pi_minus < diagnosed;
            let hadron = both_hadron_0p10 > 5 * both_pion_0p10 && both_hadron_0p10 > 0;
            &&& r == "Use photon truth only until PackedGenPart or tracking truth can provide charged-pion truth."@
                <==> scarce
            &&& r
                == "Charged-hadron matching works better than pion-only matching; treat rho as a charged-candidate mass hypothesis."@
                <==> !scarce && hadron
            &&& r == "GenPart charged particles are far from accepted reco pions; survey PackedGenPart or tracking truth next."@
                <==> !scarce && !hadron && both_pion_0p10 == 0
            &&& r == "GenPart pions exist but matching is sparse; use this as a diagnostic only before any cut study."@
                <==> !scarce && !hadron && both_pion_0p10 != 0
            &&& r == recommendation_text(
                diagnosed,
                both_pion_0p10,
                both_hadron_0p10,
                events_with_pi_minus,
                events_with_pi_plus,
            )
        }),
{
    reveal_strlit("Use photon truth only until PackedGenPart or tracking truth can provide charged-pion truth.");
    reveal_strlit(
        "Charged-hadron matching works better than pion-only matching; treat rho as a charged-candidate mass hypothesis.",
    );
    reveal_strlit("GenPart charged particles are far from accepted reco pions; survey PackedGenPart or tracking truth next.");
    reveal_strlit("GenPart pions exist but matching is sparse; use this as a diagnostic only before any cut study.");
    let r = recommendation_text(diagnosed, both_pion_0p10, both_hadron_0p10, events_with_pi_plus, events_with_pi_minus);
    let scarce = events_with_pi_plus == 0 || events_with_pi_minus == 0 || 10 * events_with_pi_plus
        < diagnosed || 10 * events_with_pi_minus < diagnosed;
    let a = "Use photon truth only until PackedGenPart or tracking truth can provide charged-pion truth."@;
    let b = "Charged-hadron matching works better than pion-only matching; treat rho as a charged-candidate mass hypothesis."@;
    let c = "GenPart charged particles are far from accepted reco pions; survey PackedGenPart or tracking truth next."@;
    let d = "GenPart pions exist but matching is sparse; use this as a diagnostic only before any cut study."@;
    assert(a.len() == 91);
    assert(b.len() == 111);
    assert(c.len() == 104);
    assert(d.len() == 95);
    assert(r == a <==> scarce);
}

/// The codes of charged hadrons and of known charged species, listed.
proof fn lemma_code_lists(p: i32)
    ensures
        charged_hadron(p) <==> (p == 211 || p == -211i32 || p == 321 || p == -321i32 || p == 2212 || p
            == -2212i32),
        known_charged(p) <==> (p == 11 || p == -11i32 || p == 13 || p == -13i32 || p == 211 || p == -211i32
            || p == 321 || p == -321i32 || p == 2212 || p == -2212i32),
{
    let h = seq![211i32, 321, 2212];
    let k = seq![11i32, 13, 211, 321, 2212];
    assert(h[0] == 211 && h[1] == 321 && h[2] == 2212);
    assert(k[0] == 11 && k[1] == 13 && k[2] == 211 && k[3] == 321 && k[4] == 2212);
}

/// `t` is one of the pion pools of sign `sign` that `x` passes.
spec fn pion_pool_hit(x: BreakdownInputs, sign: Seq<char>, t: Seq<char>) -> bool {
    t == "all_pi_"@ + sign || (x.finite && t == "finite_pi_"@ + sign) || (x.status == 1 && t == "status1_pi_"@
        + sign) || (x.status == 1 && x.finite && t == "status1_finite_pi_"@ + sign) || (x.pt_above_0p1 && t
        == "pt_gt_0p1_pi_"@ + sign) || (x.pt_above_0p5 && t == "pt_gt_0p5_pi_"@ + sign) || (x.pt_above_1p0 && t
        == "pt_gt_1p0_pi_"@ + sign) || (x.eta_within_2p5 && t == "eta_lt_2p5_pi_"@ + sign) || t == "charged_pions"@
}

/// What the pion pools of one sign contain.
proof fn lemma_pion_pools_contain(x: BreakdownInputs, sign: Seq<char>, t: Seq<char>)
    ensures
        pion_pools(x, sign).contains(t) <==> (t == "all_pi_"@ + sign || (x.finite && t == "finite_pi_"@ + sign)
            || (x.status == 1 && t == "status1_pi_"@ + sign) || (x.status == 1 && x.finite && t
            == "status1_finite_pi_"@ + sign) || (x.pt_above_0p1 && t == "pt_gt_0p1_pi_"@ + sign) || (
        x.pt_above_0p5 && t == "pt_gt_0p5_pi_"@ + sign) || (x.pt_above_1p0 && t == "pt_gt_1p0_pi_"@ + sign) || (
        x.eta_within_2p5 && t == "eta_lt_2p5_pi_"@ + sign) || t == "charged_pions"@),
{
    let a = seq!["all_pi_"@ + sign];
    let b = if x.finite {
        a.push("finite_pi_"@ + sign)
    } else {
        a
    };
    let c1 = b.push("status1_pi_"@ + sign);
    let c = if x.status == 1 {
        if x.finite {
            c1.push("status1_finite_pi_"@ + sign)
        } else {
            c1
        }
    } else {
        b
    };
    let d = if x.pt_above_0p1 {
        c.push("pt_gt_0p1_pi_"@ + sign)
    } else {
        c
    };
    let e = if x.pt_above_0p5 {
        d.push("pt_gt_0p5_pi_"@ + sign)
    } else {
        d
    };
    let f = if x.pt_above_1p0 {
        e.push("pt_gt_1p0_pi_"@ + sign)
    } else {
        e
    };
    let g = if x.eta_within_2p5 {
        f.push("eta_lt_2p5_pi_"@ + sign)
    } else {
        f
    };
    assert(pion_pools(x, sign) == g.push("charged_pions"@));
    if t == "all_pi_"@ + sign {
        assert(a[0] == t);
    }
    if a.contains(t) {
        assert(a[0] == t);
    }
    lemma_push_contains(a, "finite_pi_"@ + sign, t);
    lemma_push_contains(b, "status1_pi_"@ + sign, t);
    lemma_push_contains(c1, "status1_finite_pi_"@ + sign, t);
    lemma_push_contains(c, "pt_gt_0p1_pi_"@ + sign, t);
    lemma_push_contains(d, "pt_gt_0p5_pi_"@ + sign, t);
    lemma_push_contains(e, "pt_gt_1p0_pi_"@ + sign, t);
    lemma_push_contains(f, "eta_lt_2p5_pi_"@ + sign, t);
    lemma_push_contains(g, "charged_pions"@, t);
}

/// Which pools a generator particle falls in, pool by pool: a charged pion
/// of each sign falls in its all-pions pool and in charged_pions, and in its
/// finite, status-1, status-1-and-finite, pt and |eta| pools exactly when
/// those tests pass; charged kaons, protons and charged leptons (electrons
/// and muons, either sign) fall in their own pool; the charged-hadron pool
/// holds exactly the charged pions, kaons and protons; the stable-like pool
/// holds exactly the known charged species of status 1 with a finite
/// direction; and no other particle falls in any of these pools.
pub proof fn law_breakdown_pool_membership(x: BreakdownInputs)
    ensures
        ({
            let b = breakdown_of(x);
            let p = x.pdg_id;
            let plus = p == 211;
            let minus = p == -211i32;
            &&& b.contains("all_pi_plus"@) <==> plus
            &&& b.contains("all_pi_minus"@) <==> minus
            &&& b.contains("finite_pi_plus"@) <==> plus && x.finite
            &&& b.contains("finite_pi_minus"@) <==> minus && x.finite
            &&& b.contains("status1_pi_plus"@) <==> plus && x.status == 1
            &&& b.contains("status1_pi_minus"@) <==> minus && x.status == 1
            &&& b.contains("status1_finite_pi_plus"@) <==> plus && x.status == 1 && x.finite
            &&& b.contains("status1_finite_pi_minus"@) <==> minus && x.status == 1 && x.finite
            &&& b.contains("pt_gt_0p1_pi_plus"@) <==> plus && x.pt_above_0p1
            &&& b.contains("pt_gt_0p1_pi_minus"@) <==> minus && x.pt_above_0p1
            &&& b.contains("pt_gt_0p5_pi_plus"@) <==> plus && x.pt_above_0p5
            &&& b.contains("pt_gt_0p5_pi_minus"@) <==> minus && x.pt_above_0p5
            &&& b.contains("pt_gt_1p0_pi_plus"@) <==> plus && x.pt_above_1p0
            &&& b.contains("pt_gt_1p0_pi_minus"@) <==> minus && x.pt_above_1p0
            &&& b.contains("eta_lt_2p5_pi_plus"@) <==> plus && x.eta_within_2p5
            &&& b.contains("eta_lt_2p5_pi_minus"@) <==> minus && x.eta_within_2p5
            &&& b.contains("charged_pions"@) <==> plus || minus
            &&& b.contains("charged_kaons"@) <==> p == 321 || p == -321i32
            &&& b.contains("protons"@) <==> p == 2212 || p == -2212i32
            &&& b.contains("charged_leptons"@) <==> p == 11 || p == -11i32 || p == 13 || p == -13i32
            &&& b.contains("any_charged_hadron"@) <==> plus || minus || p == 321 || p == -321i32 || p == 2212
                || p == -2212i32
            &&& b.contains("any_charged_stable_like"@) <==> x.status == 1 && x.finite && (plus || minus || p == 321
                || p == -321i32 || p == 2212 || p == -2212i32 || p == 11 || p == -11i32 || p == 13 || p
                == -13i32)
        }),
{
    reveal_strlit("plus");
    reveal_strlit("minus");
    reveal_strlit("all_pi_");
    reveal_strlit("finite_pi_");
    reveal_strlit("status1_pi_");
    reveal_strlit("status1_finite_pi_");
    reveal_strlit("pt_gt_0p1_pi_");
    reveal_strlit("pt_gt_0p5_pi_");
    reveal_strlit("pt_gt_1p0_pi_");
    reveal_strlit("eta_lt_2p5_pi_");
    reveal_strlit("all_pi_plus");
    reveal_strlit("all_pi_minus");
    reveal_strlit("finite_pi_plus");
    reveal_strlit("finite_pi_minus");
    reveal_strlit("status1_pi_plus");
    reveal_strlit("status1_pi_minus");
    reveal_strlit("status1_finite_pi_plus");
    reveal_strlit("status1_finite_pi_minus");
    reveal_strlit("pt_gt_0p1_pi_plus");
    reveal_strlit("pt_gt_0p1_pi_minus");
    reveal_strlit("pt_gt_0p5_pi_plus");
    reveal_strlit("pt_gt_0p5_pi_minus");
    reveal_strlit("pt_gt_1p0_pi_plus");
    reveal_strlit("pt_gt_1p0_pi_minus");
    reveal_strlit("eta_lt_2p5_pi_plus");
    reveal_strlit("eta_lt_2p5_pi_minus");
    reveal_strlit("charged_pions");
    reveal_strlit("charged_kaons");
    reveal_strlit("protons");
    reveal_strlit("charged_leptons");
    reveal_strlit("any_charged_hadron");
    reveal_strlit("any_charged_stable_like");
    assert("all_pi_"@ + "plus"@ =~= "all_pi_plus"@);
    assert("all_pi_"@ + "minus"@ =~= "all_pi_minus"@);
    assert("finite_pi_"@ + "plus"@ =~= "finite_pi_plus"@);
    assert("finite_pi_"@ + "minus"@ =~= "finite_pi_minus"@);
    assert("status1_pi_"@ + "plus"@ =~= "status1_pi_plus"@);
    assert("status1_pi_"@ + "minus"@ =~= "status1_pi_minus"@);
    assert("status1_finite_pi_"@ + "plus"@ =~= "status1_finite_pi_plus"@);
    assert("status1_finite_pi_"@ + "minus"@ =~= "status1_finite_pi_minus"@);
    assert("pt_gt_0p1_pi_"@ + "plus"@ =~= "pt_gt_0p1_pi_plus"@);
    assert("pt_gt_0p1_pi_"@ + "minus"@ =~= "pt_gt_0p1_pi_minus"@);
    assert("pt_gt_0p5_pi_"@ + "plus"@ =~= "pt_gt_0p5_pi_plus"@);
    assert("pt_gt_0p5_pi_"@ + "minus"@ =~= "pt_gt_0p5_pi_minus"@);
    assert("pt_gt_1p0_pi_"@ + "plus"@ =~= "pt_gt_1p0_pi_plus"@);
    assert("pt_gt_1p0_pi_"@ + "minus"@ =~= "pt_gt_1p0_pi_minus"@);
    assert("eta_lt_2p5_pi_"@ + "plus"@ =~= "eta_lt_2p5_pi_plus"@);
    assert("eta_lt_2p5_pi_"@ + "minus"@ =~= "eta_lt_2p5_pi_minus"@);
    assert("all_pi_plus"@.len() == 11);
    assert("all_pi_minus"@.len() == 12);
    assert("finite_pi_plus"@.len() == 14);
    assert("finite_pi_minus"@.len() == 15);
    assert("status1_pi_plus"@.len() == 15);
    assert("status1_pi_minus"@.len() == 16);
    assert("status1_finite_pi_plus"@.len() == 22);
    assert("status1_finite_pi_minus"@.len() == 23);
    assert("pt_gt_0p1_pi_plus"@.len() == 17);
    assert("pt_gt_0p1_pi_minus"@.len() == 18);
    assert("pt_gt_0p5_pi_plus"@.len() == 17);
    assert("pt_gt_0p5_pi_minus"@.len() == 18);
    assert("pt_gt_1p0_pi_plus"@.len() == 17);
    assert("pt_gt_1p0_pi_minus"@.len() == 18);
    assert("eta_lt_2p5_pi_plus"@.len() == 18);
    assert("eta_lt_2p5_pi_minus"@.len() == 19);
    assert("charged_pions"@.len() == 13);
    assert("charged_kaons"@.len() == 13);
    assert("protons"@.len() == 7);
    assert("charged_leptons"@.len() == 15);
    assert("any_charged_hadron"@.len() == 18);
    assert("any_charged_stable_like"@.len() == 23);
    // names of one length differ in a character
    assert("charged_pions"@[8] != "charged_kaons"@[8]);
    assert("finite_pi_minus"@[0] != "status1_pi_plus"@[0]);
    assert("finite_pi_minus"@[0] != "charged_leptons"@[0]);
    assert("status1_pi_plus"@[0] != "charged_leptons"@[0]);
    assert("pt_gt_0p1_pi_plus"@[8] != "pt_gt_0p5_pi_plus"@[8]);
    assert("pt_gt_0p1_pi_plus"@[6] != "pt_gt_1p0_pi_plus"@[6]);
    assert("pt_gt_0p5_pi_plus"@[6] != "pt_gt_1p0_pi_plus"@[6]);
    assert("pt_gt_0p1_pi_minus"@[8] != "pt_gt_0p5_pi_minus"@[8]);
    assert("pt_gt_0p1_pi_minus"@[6] != "pt_gt_1p0_pi_minus"@[6]);
    assert("pt_gt_0p5_pi_minus"@[6] != "pt_gt_1p0_pi_minus"@[6]);
    assert("pt_gt_0p1_pi_minus"@[0] != "eta_lt_2p5_pi_plus"@[0]);
    assert("pt_gt_0p5_pi_minus"@[0] != "eta_lt_2p5_pi_plus"@[0]);
    assert("pt_gt_1p0_pi_minus"@[0] != "eta_lt_2p5_pi_plus"@[0]);
    assert("pt_gt_0p1_pi_minus"@[0] != "any_charged_hadron"@[0]);
    assert("pt_gt_0p5_pi_minus"@[0] != "any_charged_hadron"@[0]);
    assert("pt_gt_1p0_pi_minus"@[0] != "any_charged_hadron"@[0]);
    assert("eta_lt_2p5_pi_plus"@[0] != "any_charged_hadron"@[0]);
    assert("status1_finite_pi_minus"@[0] != "any_charged_stable_like"@[0]);
    let p = x.pdg_id;
    lemma_code_lists(p);
    let species = if p == 211 {
        pion_pools(x, "plus"@)
    } else if p == -211 {
        pion_pools(x, "minus"@)
    } else if p == 321 || p == -321 {
        seq!["charged_kaons"@]
    } else if p == 2212 || p == -2212 {
        seq!["protons"@]
    } else if p == 11 || p == -11 || p == 13 || p == -13 {
        seq!["charged_leptons"@]
    } else {
        Seq::empty()
    };
    let h = if charged_hadron(p) {
        species.push("any_charged_hadron"@)
    } else {
        species
    };
    assert forall|t: Seq<char>| #![trigger breakdown_of(x).contains(t)] breakdown_of(x).contains(t) <==> ((p == 211
        && pion_pool_hit(x, "plus"@, t)) || (p == -211i32 && pion_pool_hit(x, "minus"@, t)) || ((p == 321 || p
        == -321i32) && t == "charged_kaons"@) || ((p == 2212 || p == -2212i32) && t == "protons"@) || ((p == 11
        || p == -11i32 || p == 13 || p == -13i32) && t == "charged_leptons"@) || (charged_hadron(p) && t
        == "any_charged_hadron"@) || (charged_stable_like(p, x.status, x.finite) && t
        == "any_charged_stable_like"@)) by {
        lemma_push_contains(species, "any_charged_hadron"@, t);
        lemma_push_contains(h, "any_charged_stable_like"@, t);
        lemma_pion_pools_contain(x, "plus"@, t);
        lemma_pion_pools_contain(x, "minus"@, t);
        if p != 211 && p != -211 && species.len() == 1 && species.contains(t) {
            assert(species[0] == t);
        }
        if p != 211 && p != -211 && species.len() == 1 && t == species[0] {
            assert(species.contains(t));
        }
    }
}

/// Charges by PDG convention, over every code: a code has a charge sign
/// exactly when it is an electron, muon, charged pion, charged kaon or
/// proton or one of their antiparticles; the sign is negative exactly for
/// electrons, muons and the antiparticles of the hadrons, and positive
/// exactly for their antiparticles and the hadrons.
pub proof fn law_charge_signs(p: i32)
    ensures
        charge_sign_of(p) is Some <==> (p == 11 || p == -11i32 || p == 13 || p == -13i32 || p == 211 || p
            == -211i32 || p == 321 || p == -321i32 || p == 2212 || p == -2212i32),
        charge_sign_of(p) == Some(-1i32) <==> (p == 11 || p == 13 || p == -211i32 || p == -321i32 || p
            == -2212i32),
        charge_sign_of(p) == Some(1i32) <==> (p == -11i32 || p == -13i32 || p == 211 || p == 321 || p == 2212),
{
}

/// Which particles each matching pool takes for a leg of charge `charge`:
/// the same-charge pion, the opposite-charge pion, the same-charge charged
/// hadrons, the same-charge known charged species of status 1 with a finite
/// direction, and the same-charge known charged species; pools past the
/// last take nothing.
pub proof fn law_matching_pools(pool: int, charge: i32, p: i32, status: i32, finite: bool)
    requires
        charge == 1 || charge == -1,
    ensures
        ({
            let pos = p == -11i32 || p == -13i32 || p == 211 || p == 321 || p == 2212;
            let neg = p == 11 || p == 13 || p == -211i32 || p == -321i32 || p == -2212i32;
            let same = (charge == 1 && pos) || (charge == -1 && neg);
            let hadron = p == 211 || p == -211i32 || p == 321 || p == -321i32 || p == 2212 || p == -2212i32;
            &&& pool == 0 ==> (in_pool(pool, charge, p, status, finite) <==> p == 211 * charge)
            &&& pool == 1 ==> (in_pool(pool, charge, p, status, finite) <==> p == -211 * charge)
            &&& pool == 2 ==> (in_pool(pool, charge, p, status, finite) <==> same && hadron)
            &&& pool == 3 ==> (in_pool(pool, charge, p, status, finite) <==> same && status == 1 && finite)
            &&& pool == 4 ==> (in_pool(pool, charge, p, status, finite) <==> same)
            &&& (pool < 0 || pool > 4) ==> !in_pool(pool, charge, p, status, finite)
        }),
{
    lemma_code_lists(p);
    law_charge_signs(p);
}

} // verus!
