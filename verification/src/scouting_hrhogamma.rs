//! The integer and string logic of the H -> rho gamma scouting analysis:
//! truth strategies and topologies, the generator truth-chain search, the
//! branch mapping and its catalogue lookup, and the closure counters.
use vstd::prelude::*;
use vstd::string::*;

use crate::genealogy::{
    ancestor_has_pdg, descent_walk_ends, has_ancestor_with, is_descendant, is_descendant_of,
    law_ancestor_code_is_reached_particle, law_descent_is_transitive, walk_ends, GenPartIds,
};
use crate::text::push_str;

verus! {

/// How truth information was obtained for a candidate.
#[derive(Debug, Clone, Copy, PartialEq, Eq)]
pub enum TruthStrategy {
    NoTruth,
    ExplicitChain,
    TopologyProxy,
    HgammaClosure,
}

/// Name of a truth strategy, as written to tables.
pub open spec fn strategy_name(s: TruthStrategy) -> Seq<char> {
    match s {
        TruthStrategy::NoTruth => "none"@,
        TruthStrategy::ExplicitChain => "explicit_chain"@,
        TruthStrategy::TopologyProxy => "topology_proxy"@,
        TruthStrategy::HgammaClosure => "hgamma_closure"@,
    }
}

/// Numeric code of a truth strategy in ROOT skims: `0=none`,
/// `1=explicit_chain`, `2=topology_proxy`, and `3` for the H-gamma closure.
pub open spec fn strategy_code(s: TruthStrategy) -> i32 {
    match s {
        TruthStrategy::NoTruth => 0,
        TruthStrategy::ExplicitChain => 1,
        TruthStrategy::TopologyProxy => 2,
        TruthStrategy::HgammaClosure => 3,
    }
}

impl TruthStrategy {
    /// The strategy's name, as written to tables.
    pub fn as_str(self) -> (r: &'static str)
        ensures
            r@ == strategy_name(self),
    {
        match self {
            TruthStrategy::NoTruth => "none",
            TruthStrategy::ExplicitChain => "explicit_chain",
            TruthStrategy::TopologyProxy => "topology_proxy",
            TruthStrategy::HgammaClosure => "hgamma_closure",
        }
    }

    /// The strategy's numeric code in skims.
    pub fn code(self) -> (r: i32)
        ensures
            r == strategy_code(self),
    {
        match self {
            TruthStrategy::NoTruth => 0,
            TruthStrategy::ExplicitChain => 1,
            TruthStrategy::TopologyProxy => 2,
            TruthStrategy::HgammaClosure => 3,
        }
    }
}

/// What the generator record shows of the H -> rho gamma -> pi+ pi- gamma chain.
#[derive(Debug, Clone, Copy, PartialEq, Eq)]
pub enum TruthTopology {
    NotAvailable,
    ExplicitRho,
    FallbackNoExplicitRho,
    NotFound,
}

/// Name of a truth topology, as written to tables.
pub open spec fn topology_name(t: TruthTopology) -> Seq<char> {
    match t {
        TruthTopology::NotAvailable => "not_available"@,
        TruthTopology::ExplicitRho => "explicit_rho"@,
        TruthTopology::FallbackNoExplicitRho => "fallback_no_explicit_rho"@,
        TruthTopology::NotFound => "not_found"@,
    }
}

/// Numeric code of a truth topology in ROOT skims.
pub open spec fn topology_code(t: TruthTopology) -> i32 {
    match t {
        TruthTopology::NotAvailable => 0,
        TruthTopology::ExplicitRho => 1,
        TruthTopology::FallbackNoExplicitRho => 2,
        TruthTopology::NotFound => 3,
    }
}

impl TruthTopology {
    /// The topology's name, as written to tables.
    pub fn as_str(self) -> (r: &'static str)
        ensures
            r@ == topology_name(self),
    {
        match self {
            TruthTopology::NotAvailable => "not_available",
            TruthTopology::ExplicitRho => "explicit_rho",
            TruthTopology::FallbackNoExplicitRho => "fallback_no_explicit_rho",
            TruthTopology::NotFound => "not_found",
        }
    }

    /// The topology's numeric code in skims.
    pub fn code(self) -> (r: i32)
        ensures
            r == topology_code(self),
    {
        match self {
            TruthTopology::NotAvailable => 0,
            TruthTopology::ExplicitRho => 1,
            TruthTopology::FallbackNoExplicitRho => 2,
            TruthTopology::NotFound => 3,
        }
    }
}

/// Different truth strategies have different codes and names, and so do
/// different truth topologies: the codes written to skims identify them.
pub proof fn law_truth_codes_identify_variants(a: TruthStrategy, b: TruthStrategy, t: TruthTopology, u: TruthTopology)
    ensures
        strategy_code(a) == strategy_code(b) <==> a == b,
        strategy_name(a) == strategy_name(b) <==> a == b,
        topology_code(t) == topology_code(u) <==> t == u,
        topology_name(t) == topology_name(u) <==> t == u,
{
    reveal_strlit("none");
    reveal_strlit("explicit_chain");
    reveal_strlit("topology_proxy");
    reveal_strlit("hgamma_closure");
    reveal_strlit("not_available");
    reveal_strlit("explicit_rho");
    reveal_strlit("fallback_no_explicit_rho");
    reveal_strlit("not_found");
    if strategy_name(a) == strategy_name(b) && a != b {
        assert(strategy_name(a)[0] != strategy_name(b)[0] || strategy_name(a).len() != strategy_name(b).len());
    }
    if topology_name(t) == topology_name(u) && t != u {
        assert(topology_name(t)[4] != topology_name(u)[4] || topology_name(t).len() != topology_name(u).len()
            || topology_name(t)[0] != topology_name(u)[0]);
    }
}

/// Whether some ancestor of particle `index` has pdgId `ancestor_pdg_id`.
pub fn has_gen_ancestor(particles: &[GenPartIds], index: usize, ancestor_pdg_id: i32) -> (b: bool)
    ensures
        b == has_ancestor_with(particles@, index as int, ancestor_pdg_id),
{
    ancestor_has_pdg(particles, index, ancestor_pdg_id)
}

/// An optional index as an optional integer.
pub open spec fn opt_int(o: Option<usize>) -> Option<int> {
    match o {
        Some(i) => Some(i as int),
        None => None,
    }
}

/// The particle at `i` has `pdg_id` and, when `ancestor` is given, descends from it.
pub open spec fn matches_at(ps: Seq<GenPartIds>, i: int, pdg_id: i32, ancestor: Option<int>) -> bool {
    ps[i].pdg_id == pdg_id && match ancestor {
        Some(a) => is_descendant(ps, i, a),
        None => true,
    }
}

/// The first index at or after `from` whose particle matches.
pub open spec fn first_match_from(
    ps: Seq<GenPartIds>,
    pdg_id: i32,
    ancestor: Option<int>,
    from: int,
) -> Option<int>
    decreases ps.len() - from,
{
    if from < 0 || from >= ps.len() {
        None
    } else if matches_at(ps, from, pdg_id, ancestor) {
        Some(from)
    } else {
        first_match_from(ps, pdg_id, ancestor, from + 1)
    }
}

/// The first particle with `pdg_id` (descending from `ancestor`, when given).
pub open spec fn first_match(ps: Seq<GenPartIds>, pdg_id: i32, ancestor: Option<int>) -> Option<
    int,
> {
    first_match_from(ps, pdg_id, ancestor, 0)
}

proof fn lemma_first_match_bounds(ps: Seq<GenPartIds>, pdg_id: i32, ancestor: Option<int>, from: int)
    ensures
        first_match_from(ps, pdg_id, ancestor, from) matches Some(i) ==> from <= i < ps.len()
            && matches_at(ps, i, pdg_id, ancestor),
    decreases ps.len() - from,
{
    if 0 <= from < ps.len() && !matches_at(ps, from, pdg_id, ancestor) {
        lemma_first_match_bounds(ps, pdg_id, ancestor, from + 1);
    }
}

/// The search from `from` on stops: every particle with `pdg_id` that it
/// asks about before the first match has a mother-link walk that stops at
/// `ancestor` or runs out. A search without an ancestor always stops.
pub open spec fn search_ends_from(ps: Seq<GenPartIds>, pdg_id: i32, ancestor: Option<int>, from: int) -> bool
    decreases ps.len() - from,
{
    if from < 0 || from >= ps.len() {
        true
    } else {
        match ancestor {
            None => true,
            Some(a) => if ps[from].pdg_id != pdg_id {
                search_ends_from(ps, pdg_id, ancestor, from + 1)
            } else {
                walk_ends(ps, from, a) && (is_descendant(ps, from, a) || search_ends_from(
                    ps,
                    pdg_id,
                    ancestor,
                    from + 1,
                ))
            },
        }
    }
}

/// The whole search for the first match stops.
pub open spec fn search_ends(ps: Seq<GenPartIds>, pdg_id: i32, ancestor: Option<int>) -> bool {
    search_ends_from(ps, pdg_id, ancestor, 0)
}

/// Whether the search for the first particle with `pdg_id` descending from
/// `ancestor` stops.
pub fn first_match_search_ends(ps: &[GenPartIds], pdg_id: i32, ancestor: Option<usize>) -> (b: bool)
    ensures
        b == search_ends(ps@, pdg_id, opt_int(ancestor)),
{
    let a = match ancestor {
        None => return true,
        Some(a) => a,
    };
    let ghost anc = opt_int(ancestor);
    let mut i = ps.len();
    let mut ends = true;
    while i > 0
        invariant
            i <= ps@.len(),
            anc == Some(a as int),
            ends == search_ends_from(ps@, pdg_id, anc, i as int),
        decreases i,
    {
        i -= 1;
        if ps[i].pdg_id == pdg_id {
            ends = descent_walk_ends(ps, i, a) && (is_descendant_of(ps, i, a) || ends);
        }
    }
    ends
}

/// Index of the first particle with `pdg_id` that descends from `ancestor`
/// (from any particle when `ancestor` is `None`). The search is asked of a
/// record on which it stops.
pub fn find_first(ps: &[GenPartIds], pdg_id: i32, ancestor: Option<usize>) -> (r: Option<usize>)
    requires
        search_ends(ps@, pdg_id, opt_int(ancestor)),
    ensures
        r matches Some(i) ==> first_match(ps@, pdg_id, opt_int(ancestor)) == Some(
            i as int,
        ),
        r is None ==> first_match(ps@, pdg_id, opt_int(ancestor)) is None,
{
    let ghost anc = opt_int(ancestor);
    let mut i: usize = 0;
    while i < ps.len()
        invariant
            i <= ps@.len(),
            anc == opt_int(ancestor),
            first_match(ps@, pdg_id, anc) == first_match_from(ps@, pdg_id, anc, i as int),
            search_ends_from(ps@, pdg_id, anc, i as int),
        decreases ps.len() - i,
    {
        let hit = ps[i].pdg_id == pdg_id && match ancestor {
            Some(a) => is_descendant_of(ps, i, a),
            None => true,
        };
        if hit {
            return Some(i);
        }
        i += 1;
    }
    None
}

/// What a found truth chain guarantees: the Higgs is the first particle with
/// code 25 (and without one nothing is found); an explicit chain has a rho0
/// and a photon descending from the Higgs and a pi+ and a pi- descending from
/// the rho0, so also from the Higgs; a fallback chain has a photon, a pi+ and
/// a pi- descending from the Higgs and no rho0; otherwise nothing but the
/// Higgs is reported.
pub proof fn law_truth_chain_is_genealogy(ps: Seq<GenPartIds>)
    ensures
        ({
            let (h, topology, rho, photon, pi_plus, pi_minus) = truth_chain(ps);
            let (hi, r, g, p, m) = (h->0, rho->0, photon->0, pi_plus->0, pi_minus->0);
            &&& h == first_match(ps, 25, None)
            &&& h is None ==> forall|i: int| 0 <= i < ps.len() ==> ps[i].pdg_id != 25
            &&& topology == TruthTopology::ExplicitRho ==> {
                &&& h is Some && rho is Some && photon is Some && pi_plus is Some && pi_minus is Some
                &&& 0 <= hi < ps.len() && ps[hi].pdg_id == 25
                &&& 0 <= r < ps.len() && ps[r].pdg_id == 113 && is_descendant(ps, r, hi)
                &&& 0 <= g < ps.len() && ps[g].pdg_id == 22 && is_descendant(ps, g, hi)
                &&& 0 <= p < ps.len() && ps[p].pdg_id == 211 && is_descendant(ps, p, r) && is_descendant(ps, p, hi)
                &&& 0 <= m < ps.len() && ps[m].pdg_id == -211i32 && is_descendant(ps, m, r) && is_descendant(
                    ps,
                    m,
                    hi,
                )
            }
            &&& topology == TruthTopology::FallbackNoExplicitRho ==> {
                &&& h is Some && rho is None && photon is Some && pi_plus is Some && pi_minus is Some
                &&& 0 <= hi < ps.len() && ps[hi].pdg_id == 25
                &&& 0 <= g < ps.len() && ps[g].pdg_id == 22 && is_descendant(ps, g, hi)
                &&& 0 <= p < ps.len() && ps[p].pdg_id == 211 && is_descendant(ps, p, hi)
                &&& 0 <= m < ps.len() && ps[m].pdg_id == -211i32 && is_descendant(ps, m, hi)
            }
            &&& topology != TruthTopology::NotFound ==> has_ancestor_with(ps, g, 25) && has_ancestor_with(ps, p, 25)
                && has_ancestor_with(ps, m, 25)
            &&& topology == TruthTopology::ExplicitRho ==> has_ancestor_with(ps, p, 113) && has_ancestor_with(ps, m, 113)
            &&& topology == TruthTopology::NotFound ==> rho is None && photon is None && pi_plus is None
                && pi_minus is None
            &&& topology != TruthTopology::NotAvailable
        }),
{
    lemma_first_match_bounds(ps, 25, None, 0);
    let (h0, t0, r0, g0, p0, m0) = truth_chain(ps);
    let (hi, ri, gi, pi, mi) = (h0->0, r0->0, g0->0, p0->0, m0->0);
    law_ancestor_code_is_reached_particle(ps, gi, 25);
    law_ancestor_code_is_reached_particle(ps, pi, 25);
    law_ancestor_code_is_reached_particle(ps, mi, 25);
    law_ancestor_code_is_reached_particle(ps, pi, 113);
    law_ancestor_code_is_reached_particle(ps, mi, 113);
    if first_match(ps, 25, None) is None {
        assert forall|i: int| 0 <= i < ps.len() implies ps[i].pdg_id != 25 by {
            lemma_no_first_match(ps, 25, None, 0, i);
        }
    } else {
        let h = first_match(ps, 25, None)->0;
        lemma_first_match_bounds(ps, 22, Some(h), 0);
        lemma_first_match_bounds(ps, 113, Some(h), 0);
        lemma_first_match_bounds(ps, 211, Some(h), 0);
        lemma_first_match_bounds(ps, -211i32, Some(h), 0);
        match first_match(ps, 113, Some(h)) {
            Some(r) => {
                lemma_first_match_bounds(ps, 211, Some(r), 0);
                lemma_first_match_bounds(ps, -211i32, Some(r), 0);
                if let Some(p) = first_match(ps, 211, Some(r)) {
                    law_descent_is_transitive(ps, p, r, h);
                }
                if let Some(m) = first_match(ps, -211i32, Some(r)) {
                    law_descent_is_transitive(ps, m, r, h);
                }
            },
            None => {},
        }
    }
}

proof fn lemma_no_first_match(ps: Seq<GenPartIds>, pdg_id: i32, ancestor: Option<int>, from: int, i: int)
    requires
        0 <= from <= i < ps.len(),
        first_match_from(ps, pdg_id, ancestor, from) is None,
    ensures
        !matches_at(ps, i, pdg_id, ancestor),
    decreases i - from,
{
    if from < i {
        lemma_no_first_match(ps, pdg_id, ancestor, from + 1, i);
    }
}

/// Indices of the H -> rho gamma -> pi+ pi- gamma chain in a generator record.
#[derive(Debug, Clone, Copy, PartialEq, Eq)]
pub struct TruthChainIndices {
    pub topology: TruthTopology,
    pub h: Option<usize>,
    pub rho: Option<usize>,
    pub photon: Option<usize>,
    pub pi_plus: Option<usize>,
    pub pi_minus: Option<usize>,
}

/// The chain found in a generator record: the first Higgs (pdgId 25); its
/// first descendant photon (22) and rho0 (113); with an explicit rho, its
/// first descendant pi+ and pi-; without one (or when that chain is
/// incomplete), the first pi+ and pi- descending from the Higgs.
pub open spec fn truth_chain(ps: Seq<GenPartIds>) -> (Option<int>, TruthTopology, Option<int>, Option<
    int,
>, Option<int>, Option<int>) {
    match first_match(ps, 25, None) {
        None => (None, TruthTopology::NotFound, None, None, None, None),
        Some(h) => {
            let photon = first_match(ps, 22, Some(h));
            let rho = first_match(ps, 113, Some(h));
            let rho_plus = match rho {
                Some(r) => first_match(ps, 211, Some(r)),
                None => None,
            };
            let rho_minus = match rho {
                Some(r) => first_match(ps, -211i32, Some(r)),
                None => None,
            };
            let h_plus = first_match(ps, 211, Some(h));
            let h_minus = first_match(ps, -211i32, Some(h));
            if rho is Some && photon is Some && rho_plus is Some && rho_minus is Some {
                (Some(h), TruthTopology::ExplicitRho, rho, photon, rho_plus, rho_minus)
            } else if photon is Some && h_plus is Some && h_minus is Some {
                (Some(h), TruthTopology::FallbackNoExplicitRho, None, photon, h_plus, h_minus)
            } else {
                (Some(h), TruthTopology::NotFound, None, None, None, None)
            }
        },
    }
}

/// The indices as plain integers.
pub open spec fn chain_view(c: TruthChainIndices) -> (Option<int>, TruthTopology, Option<int>, Option<
    int,
>, Option<int>, Option<int>) {
    (
        opt_int(c.h),
        c.topology,
        opt_int(c.rho),
        opt_int(c.photon),
        opt_int(c.pi_plus),
        opt_int(c.pi_minus),
    )
}

/// Every search that the truth-chain lookup makes stops: those for the
/// photon and the rho0 below the Higgs, those for the pions below a found
/// rho0, and, where the explicit chain is incomplete, those for the pions
/// below the Higgs.
pub open spec fn truth_search_ends(ps: Seq<GenPartIds>) -> bool {
    match first_match(ps, 25, None) {
        None => true,
        Some(h) => {
            let photon = first_match(ps, 22, Some(h));
            let rho = first_match(ps, 113, Some(h));
            &&& search_ends(ps, 22, Some(h))
            &&& search_ends(ps, 113, Some(h))
            &&& match rho {
                Some(r) => search_ends(ps, 211, Some(r)) && search_ends(ps, -211i32, Some(r)),
                None => true,
            }
            &&& !(rho matches Some(r) && photon is Some && first_match(ps, 211, Some(r)) is Some
                && first_match(ps, -211i32, Some(r)) is Some) ==> search_ends(ps, 211, Some(h))
                && search_ends(ps, -211i32, Some(h))
        },
    }
}

/// Whether every search of the truth-chain lookup stops on this record.
pub fn truth_chain_search_ends(particles: &[GenPartIds]) -> (b: bool)
    ensures
        b == truth_search_ends(particles@),
{
    let h = match find_first(particles, 25, None) {
        None => return true,
        Some(h) => h,
    };
    proof {
        lemma_first_match_bounds(particles@, 25, None, 0);
    }
    if !first_match_search_ends(particles, 22, Some(h)) || !first_match_search_ends(particles, 113, Some(h)) {
        return false;
    }
    let photon = find_first(particles, 22, Some(h));
    let rho = find_first(particles, 113, Some(h));
    if let Some(r) = rho {
        if !first_match_search_ends(particles, 211, Some(r)) || !first_match_search_ends(
            particles,
            -211,
            Some(r),
        ) {
            return false;
        }
        let plus = find_first(particles, 211, Some(r));
        let minus = find_first(particles, -211, Some(r));
        if photon.is_some() && plus.is_some() && minus.is_some() {
            return true;
        }
    }
    first_match_search_ends(particles, 211, Some(h)) && first_match_search_ends(particles, -211, Some(h))
}

/// Finds the H -> rho gamma truth chain in a generator record whose searches
/// stop (on a record where one of them would follow a cycle of mother links
/// forever, nothing is ever answered).
pub fn identify_truth_chain(particles: &[GenPartIds]) -> (r: TruthChainIndices)
    requires
        truth_search_ends(particles@),
    ensures
        chain_view(r) == truth_chain(particles@),
{
    let h = match find_first(particles, 25, None) {
        None => {
            return TruthChainIndices {
                topology: TruthTopology::NotFound,
                h: None,
                rho: None,
                photon: None,
                pi_plus: None,
                pi_minus: None,
            };
        },
        Some(h) => h,
    };
    proof {
        lemma_first_match_bounds(particles@, 25, None, 0);
    }
    let photon = find_first(particles, 22, Some(h));
    let rho = find_first(particles, 113, Some(h));
    if let Some(r) = rho {
        let plus = find_first(particles, 211, Some(r));
        let minus = find_first(particles, -211, Some(r));
        if photon.is_some() && plus.is_some() && minus.is_some() {
            return TruthChainIndices {
                topology: TruthTopology::ExplicitRho,
                h: Some(h),
                rho: Some(r),
                photon,
                pi_plus: plus,
                pi_minus: minus,
            };
        }
    }
    let plus = find_first(particles, 211, Some(h));
    let minus = find_first(particles, -211, Some(h));
    if photon.is_some() && plus.is_some() && minus.is_some() {
        return TruthChainIndices {
            topology: TruthTopology::FallbackNoExplicitRho,
            h: Some(h),
            rho: None,
            photon,
            pi_plus: plus,
            pi_minus: minus,
        };
    }
    TruthChainIndices {
        topology: TruthTopology::NotFound,
        h: Some(h),
        rho: None,
        photon: None,
        pi_plus: None,
        pi_minus: None,
    }
}

/// Branch names of the photon collection.
#[derive(Debug, Clone, PartialEq)]
pub struct PhotonBranches {
    pub semantic_name: String,
    pub count: String,
    pub pt: String,
    pub eta: String,
    pub phi: String,
}

/// Branch names of the charged-candidate collection.
#[derive(Debug, Clone, PartialEq)]
pub struct ChargedCandidateBranches {
    pub semantic_name: String,
    pub count: String,
    pub pt: String,
    pub eta: String,
    pub phi: String,
    pub pdg_id: String,
    pub mass: Option<String>,
}

/// Where the analysis reads its photons and charged candidates.
#[derive(Debug, Clone, PartialEq)]
pub struct HToRhoGammaBranchMapping {
    pub photon: PhotonBranches,
    pub charged_candidate: ChargedCandidateBranches,
}

impl HToRhoGammaBranchMapping {
    /// The built-in mapping of the Run-3 scouting NanoAOD branches.
    pub fn zcountinghlt_naive() -> (m: Self)
        ensures
            m.photon.semantic_name@ == "ScoutingPhoton"@,
            m.photon.count@ == "nPhoton"@,
            m.photon.pt@ == "Photon_pt"@,
            m.photon.eta@ == "Photon_eta"@,
            m.photon.phi@ == "Photon_phi"@,
            m.charged_candidate.semantic_name@ == "ScoutingChargedCandidate"@,
            m.charged_candidate.count@ == "nPFCand"@,
            m.charged_candidate.pt@ == "PFCand_pt"@,
            m.charged_candidate.eta@ == "PFCand_eta"@,
            m.charged_candidate.phi@ == "PFCand_phi"@,
            m.charged_candidate.pdg_id@ == "PFCand_pdgId"@,
            m.charged_candidate.mass matches Some(n) && n@ == "PFCand_mass"@,
    {
        HToRhoGammaBranchMapping {
            photon: PhotonBranches {
                semantic_name: String::from_str("ScoutingPhoton"),
                count: String::from_str("nPhoton"),
                pt: String::from_str("Photon_pt"),
                eta: String::from_str("Photon_eta"),
                phi: String::from_str("Photon_phi"),
            },
            charged_candidate: ChargedCandidateBranches {
                semantic_name: String::from_str("ScoutingChargedCandidate"),
                count: String::from_str("nPFCand"),
                pt: String::from_str("PFCand_pt"),
                eta: String::from_str("PFCand_eta"),
                phi: String::from_str("PFCand_phi"),
                pdg_id: String::from_str("PFCand_pdgId"),
                mass: Some(String::from_str("PFCand_mass")),
            },
        }
    }
}

/// Per-event outcome of the H-gamma closure study.
#[derive(Debug, Clone, Copy, Default, PartialEq, Eq)]
pub struct HgammaClosureEventFlags {
    pub has_gen_h: bool,
    pub has_gen_hgamma: bool,
    pub has_reco_photon_preselection: bool,
    pub photon_matched_dr_0p1: bool,
    pub photon_matched_dr_0p2: bool,
    pub has_os_track_pair: bool,
    pub has_accepted_candidate: bool,
    pub higgs_closed_mass_10: bool,
    pub higgs_closed_mass_15: bool,
    pub higgs_closed_mass_20: bool,
}

/// Event counts of the H-gamma closure study.
#[derive(Debug, Clone, Copy, Default, PartialEq, Eq)]
pub struct HgammaClosureCounters {
    pub events_total: usize,
    pub events_with_gen_h: usize,
    pub events_with_gen_hgamma: usize,
    pub events_with_reco_photon_preselection: usize,
    pub events_with_reco_photon_matched_dr_0p1: usize,
    pub events_with_reco_photon_matched_dr_0p2: usize,
    pub events_with_reco_photon_matched_dr_0p1_and_any_os_track_pair: usize,
    pub events_with_reco_photon_matched_dr_0p1_and_accepted_candidate: usize,
    pub events_with_reco_photon_matched_dr_0p1_and_higgs_closed_mass_10: usize,
    pub events_with_reco_photon_matched_dr_0p1_and_higgs_closed_mass_15: usize,
    pub events_with_reco_photon_matched_dr_0p1_and_higgs_closed_mass_20: usize,
}

/// 1 for a true flag, 0 otherwise.
pub open spec fn count_if(b: bool) -> int {
    if b {
        1
    } else {
        0
    }
}

/// `c` counts one more event than `old` does, with the flags of `f`.
pub open spec fn counts_after(old: HgammaClosureCounters, f: HgammaClosureEventFlags, c: HgammaClosureCounters) -> bool {
    &&& c.events_total == old.events_total + 1
    &&& c.events_with_gen_h == old.events_with_gen_h + count_if(f.has_gen_h)
    &&& c.events_with_gen_hgamma == old.events_with_gen_hgamma + count_if(f.has_gen_hgamma)
    &&& c.events_with_reco_photon_preselection == old.events_with_reco_photon_preselection
        + count_if(f.has_reco_photon_preselection)
    &&& c.events_with_reco_photon_matched_dr_0p1 == old.events_with_reco_photon_matched_dr_0p1
        + count_if(f.photon_matched_dr_0p1)
    &&& c.events_with_reco_photon_matched_dr_0p2 == old.events_with_reco_photon_matched_dr_0p2
        + count_if(f.photon_matched_dr_0p2)
    &&& c.events_with_reco_photon_matched_dr_0p1_and_any_os_track_pair
        == old.events_with_reco_photon_matched_dr_0p1_and_any_os_track_pair + count_if(
        f.photon_matched_dr_0p1 && f.has_os_track_pair,
    )
    &&& c.events_with_reco_photon_matched_dr_0p1_and_accepted_candidate
        == old.events_with_reco_photon_matched_dr_0p1_and_accepted_candidate + count_if(
        f.photon_matched_dr_0p1 && f.has_accepted_candidate,
    )
    &&& c.events_with_reco_photon_matched_dr_0p1_and_higgs_closed_mass_10
        == old.events_with_reco_photon_matched_dr_0p1_and_higgs_closed_mass_10 + count_if(
        f.photon_matched_dr_0p1 && f.higgs_closed_mass_10,
    )
    &&& c.events_with_reco_photon_matched_dr_0p1_and_higgs_closed_mass_15
        == old.events_with_reco_photon_matched_dr_0p1_and_higgs_closed_mass_15 + count_if(
        f.photon_matched_dr_0p1 && f.higgs_closed_mass_15,
    )
    &&& c.events_with_reco_photon_matched_dr_0p1_and_higgs_closed_mass_20
        == old.events_with_reco_photon_matched_dr_0p1_and_higgs_closed_mass_20 + count_if(
        f.photon_matched_dr_0p1 && f.higgs_closed_mass_20,
    )
}

/// Every counter that the flags `f` increment is below its maximum, so the
/// event can be counted.
pub open spec fn counters_have_room(c: HgammaClosureCounters, f: HgammaClosureEventFlags) -> bool {
    &&& c.events_total < usize::MAX
    &&& f.has_gen_h ==> c.events_with_gen_h < usize::MAX
    &&& f.has_gen_hgamma ==> c.events_with_gen_hgamma < usize::MAX
    &&& f.has_reco_photon_preselection ==> c.events_with_reco_photon_preselection < usize::MAX
    &&& f.photon_matched_dr_0p1 ==> c.events_with_reco_photon_matched_dr_0p1 < usize::MAX
    &&& f.photon_matched_dr_0p2 ==> c.events_with_reco_photon_matched_dr_0p2 < usize::MAX
    &&& f.photon_matched_dr_0p1 && f.has_os_track_pair
        ==> c.events_with_reco_photon_matched_dr_0p1_and_any_os_track_pair < usize::MAX
    &&& f.photon_matched_dr_0p1 && f.has_accepted_candidate
        ==> c.events_with_reco_photon_matched_dr_0p1_and_accepted_candidate < usize::MAX
    &&& f.photon_matched_dr_0p1 && f.higgs_closed_mass_10
        ==> c.events_with_reco_photon_matched_dr_0p1_and_higgs_closed_mass_10 < usize::MAX
    &&& f.photon_matched_dr_0p1 && f.higgs_closed_mass_15
        ==> c.events_with_reco_photon_matched_dr_0p1_and_higgs_closed_mass_15 < usize::MAX
    &&& f.photon_matched_dr_0p1 && f.higgs_closed_mass_20
        ==> c.events_with_reco_photon_matched_dr_0p1_and_higgs_closed_mass_20 < usize::MAX
}

fn one_if(b: bool) -> (r: usize)
    ensures
        r == count_if(b),
{
    if b {
        1
    } else {
        0
    }
}

impl HgammaClosureCounters {
    /// Counts one event with the given flags.
    pub fn observe(&mut self, flags: HgammaClosureEventFlags)
        requires
            counters_have_room(*old(self), flags),
        ensures
            counts_after(*old(self), flags, *final(self)),
    {
        self.events_total += 1;
        self.events_with_gen_h += one_if(flags.has_gen_h);
        self.events_with_gen_hgamma += one_if(flags.has_gen_hgamma);
        self.events_with_reco_photon_preselection += one_if(flags.has_reco_photon_preselection);
        self.events_with_reco_photon_matched_dr_0p1 += one_if(flags.photon_matched_dr_0p1);
        self.events_with_reco_photon_matched_dr_0p2 += one_if(flags.photon_matched_dr_0p2);
        self.events_with_reco_photon_matched_dr_0p1_and_any_os_track_pair += one_if(
            flags.photon_matched_dr_0p1 && flags.has_os_track_pair,
        );
        self.events_with_reco_photon_matched_dr_0p1_and_accepted_candidate += one_if(
            flags.photon_matched_dr_0p1 && flags.has_accepted_candidate,
        );
        self.events_with_reco_photon_matched_dr_0p1_and_higgs_closed_mass_10 += one_if(
            flags.photon_matched_dr_0p1 && flags.higgs_closed_mass_10,
        );
        self.events_with_reco_photon_matched_dr_0p1_and_higgs_closed_mass_15 += one_if(
            flags.photon_matched_dr_0p1 && flags.higgs_closed_mass_15,
        );
        self.events_with_reco_photon_matched_dr_0p1_and_higgs_closed_mass_20 += one_if(
            flags.photon_matched_dr_0p1 && flags.higgs_closed_mass_20,
        );
    }
}

/// No counter exceeds the number of events, and no "photon matched within
/// 0.1 and ..." counter exceeds the count of events with a matched photon.
pub open spec fn closure_counters_consistent(c: HgammaClosureCounters) -> bool {
    &&& c.events_with_gen_h <= c.events_total
    &&& c.events_with_gen_hgamma <= c.events_total
    &&& c.events_with_reco_photon_preselection <= c.events_total
    &&& c.events_with_reco_photon_matched_dr_0p1 <= c.events_total
    &&& c.events_with_reco_photon_matched_dr_0p2 <= c.events_total
    &&& c.events_with_reco_photon_matched_dr_0p1_and_any_os_track_pair <= c.events_with_reco_photon_matched_dr_0p1
    &&& c.events_with_reco_photon_matched_dr_0p1_and_accepted_candidate <= c.events_with_reco_photon_matched_dr_0p1
    &&& c.events_with_reco_photon_matched_dr_0p1_and_higgs_closed_mass_10 <= c.events_with_reco_photon_matched_dr_0p1
    &&& c.events_with_reco_photon_matched_dr_0p1_and_higgs_closed_mass_15 <= c.events_with_reco_photon_matched_dr_0p1
    &&& c.events_with_reco_photon_matched_dr_0p1_and_higgs_closed_mass_20 <= c.events_with_reco_photon_matched_dr_0p1
}

/// Counting an event keeps the counters consistent: each counter grows by at
/// most one, the event total by exactly one, and a "matched and ..." counter
/// only grows with the matched-photon counter.
pub proof fn law_observe_keeps_counters_consistent(
    before: HgammaClosureCounters,
    flags: HgammaClosureEventFlags,
    after: HgammaClosureCounters,
)
    requires
        closure_counters_consistent(before),
        counts_after(before, flags, after),
    ensures
        closure_counters_consistent(after),
        after.events_total == before.events_total + 1,
        after.events_with_gen_h <= before.events_with_gen_h + 1,
        after.events_with_gen_hgamma <= before.events_with_gen_hgamma + 1,
        after.events_with_reco_photon_matched_dr_0p1 <= before.events_with_reco_photon_matched_dr_0p1 + 1,
{
}

/// One object of a branch catalogue: its name, its count branch, and its
/// fields as (field, branch) pairs.
#[derive(Debug, Clone, PartialEq)]
pub struct CatalogueObject {
    pub name: String,
    pub count: String,
    pub fields: Vec<(String, String)>,
}

/// Index of the first object named `name` at or after `from`.
pub open spec fn object_index_from(objs: Seq<CatalogueObject>, name: Seq<char>, from: int) -> Option<
    int,
>
    decreases objs.len() - from,
{
    if from < 0 || from >= objs.len() {
        None
    } else if objs[from].name@ == name {
        Some(from)
    } else {
        object_index_from(objs, name, from + 1)
    }
}

/// Index of the object named `name` (the first one, should names repeat).
pub open spec fn object_index(objs: Seq<CatalogueObject>, name: Seq<char>) -> Option<int> {
    object_index_from(objs, name, 0)
}

/// The branch recorded for field `key` at or after position `from`.
pub open spec fn field_value_from(fields: Seq<(String, String)>, key: Seq<char>, from: int) -> Option<
    Seq<char>,
>
    decreases fields.len() - from,
{
    if from < 0 || from >= fields.len() {
        None
    } else if fields[from].0@ == key {
        Some(fields[from].1@)
    } else {
        field_value_from(fields, key, from + 1)
    }
}

/// The branch recorded for field `key` (the first one, should keys repeat).
pub open spec fn field_value(fields: Seq<(String, String)>, key: Seq<char>) -> Option<Seq<char>> {
    field_value_from(fields, key, 0)
}

/// The error that resolving the mapping reports, or `None` when it succeeds:
/// the photon object and its `pt`, `eta`, `phi` fields are looked up first,
/// then the charged-candidate object and its `pt`, `eta`, `phi`, `pdgId`.
pub open spec fn catalogue_problem(
    photon_source: Seq<char>,
    charged_source: Seq<char>,
    objs: Seq<CatalogueObject>,
) -> Option<Seq<char>> {
    match object_index(objs, photon_source) {
        None => Some("missing photon object: "@ + photon_source),
        Some(p) => {
            let pf = objs[p].fields@;
            if field_value(pf, "pt"@) is None {
                Some("missing pt"@)
            } else if field_value(pf, "eta"@) is None {
                Some("missing eta"@)
            } else if field_value(pf, "phi"@) is None {
                Some("missing phi"@)
            } else {
                match object_index(objs, charged_source) {
                    None => Some("missing charged_candidate object: "@ + charged_source),
                    Some(c) => {
                        let cf = objs[c].fields@;
                        if field_value(cf, "pt"@) is None {
                            Some("missing pt"@)
                        } else if field_value(cf, "eta"@) is None {
                            Some("missing eta"@)
                        } else if field_value(cf, "phi"@) is None {
                            Some("missing phi"@)
                        } else if field_value(cf, "pdgId"@) is None {
                            Some("missing pdgId"@)
                        } else {
                            None
                        }
                    },
                }
            }
        },
    }
}

/// `m` holds the branches that the catalogue records for the two objects.
pub open spec fn is_catalogue_mapping(
    photon_source: Seq<char>,
    charged_source: Seq<char>,
    objs: Seq<CatalogueObject>,
    m: HToRhoGammaBranchMapping,
) -> bool {
    let p = object_index(objs, photon_source)->0;
    let c = object_index(objs, charged_source)->0;
    let pf = objs[p].fields@;
    let cf = objs[c].fields@;
    &&& m.photon.semantic_name@ == photon_source
    &&& m.photon.count@ == objs[p].count@
    &&& Some(m.photon.pt@) == field_value(pf, "pt"@)
    &&& Some(m.photon.eta@) == field_value(pf, "eta"@)
    &&& Some(m.photon.phi@) == field_value(pf, "phi"@)
    &&& m.charged_candidate.semantic_name@ == charged_source
    &&& m.charged_candidate.count@ == objs[c].count@
    &&& Some(m.charged_candidate.pt@) == field_value(cf, "pt"@)
    &&& Some(m.charged_candidate.eta@) == field_value(cf, "eta"@)
    &&& Some(m.charged_candidate.phi@) == field_value(cf, "phi"@)
    &&& Some(m.charged_candidate.pdg_id@) == field_value(cf, "pdgId"@)
    &&& match m.charged_candidate.mass {
        Some(b) => field_value(cf, "mass"@) == Some(b@),
        None => field_value(cf, "mass"@) is None,
    }
}

fn find_object(objs: &Vec<CatalogueObject>, name: &str) -> (r: Option<usize>)
    ensures
        opt_int(r) == object_index(objs@, name@),
        r matches Some(i) ==> i < objs@.len(),
{
    let mut i: usize = 0;
    while i < objs.len()
        invariant
            i <= objs@.len(),
            object_index(objs@, name@) == object_index_from(objs@, name@, i as int),
        decreases objs.len() - i,
    {
        if crate::text::str_eq(objs[i].name.as_str(), name) {
            return Some(i);
        }
        i += 1;
    }
    None
}

fn find_field(fields: &Vec<(String, String)>, key: &str) -> (r: Option<String>)
    ensures
        match r {
            Some(v) => field_value(fields@, key@) == Some(v@),
            None => field_value(fields@, key@) is None,
        },
{
    let mut i: usize = 0;
    while i < fields.len()
        invariant
            i <= fields@.len(),
            field_value(fields@, key@) == field_value_from(fields@, key@, i as int),
        decreases fields.len() - i,
    {
        if crate::text::str_eq(fields[i].0.as_str(), key) {
            return Some(fields[i].1.clone());
        }
        i += 1;
    }
    None
}

fn missing(what: &str, name: &str) -> (s: String)
    ensures
        s@ == what@ + name@,
{
    let mut s = String::from_str(what);
    push_str(&mut s, name);
    s
}

/// Resolves the photon and charged-candidate objects named in an analysis
/// config against the objects of a branch catalogue.
pub fn mapping_from_catalogue(
    photon_source: &str,
    charged_source: &str,
    objects: &Vec<CatalogueObject>,
) -> (r: core::result::Result<HToRhoGammaBranchMapping, String>)
    ensures
        match catalogue_problem(photon_source@, charged_source@, objects@) {
            Some(msg) => r matches Err(e) && e@ == msg,
            None => r matches Ok(m) && is_catalogue_mapping(
                photon_source@,
                charged_source@,
                objects@,
                m,
            ),
        },
{
    let p = match find_object(objects, photon_source) {
        Some(p) => p,
        None => {
            return Err(missing("missing photon object: ", photon_source));
        },
    };
    let pf = &objects[p].fields;
    let pt = match find_field(pf, "pt") {
        Some(v) => v,
        None => {
            return Err(String::from_str("missing pt"));
        },
    };
    let eta = match find_field(pf, "eta") {
        Some(v) => v,
        None => {
            return Err(String::from_str("missing eta"));
        },
    };
    let phi = match find_field(pf, "phi") {
        Some(v) => v,
        None => {
            return Err(String::from_str("missing phi"));
        },
    };
    let photon = PhotonBranches {
        semantic_name: String::from_str(photon_source),
        count: objects[p].count.clone(),
        pt,
        eta,
        phi,
    };
    let c = match find_object(objects, charged_source) {
        Some(c) => c,
        None => {
            return Err(missing("missing charged_candidate object: ", charged_source));
        },
    };
    let cf = &objects[c].fields;
    let cpt = match find_field(cf, "pt") {
        Some(v) => v,
        None => {
            return Err(String::from_str("missing pt"));
        },
    };
    let ceta = match find_field(cf, "eta") {
        Some(v) => v,
        None => {
            return Err(String::from_str("missing eta"));
        },
    };
    let cphi = match find_field(cf, "phi") {
        Some(v) => v,
        None => {
            return Err(String::from_str("missing phi"));
        },
    };
    let pdg = match find_field(cf, "pdgId") {
        Some(v) => v,
        None => {
            return Err(String::from_str("missing pdgId"));
        },
    };
    let mass = find_field(cf, "mass");
    let charged_candidate = ChargedCandidateBranches {
        semantic_name: String::from_str(charged_source),
        count: objects[c].count.clone(),
        pt: cpt,
        eta: ceta,
        phi: cphi,
        pdg_id: pdg,
        mass,
    };
    Ok(HToRhoGammaBranchMapping { photon, charged_candidate })
}

/// Counting an event raises each counter by one exactly when the event
/// shows what the counter counts, and leaves it as it was otherwise: the
/// event total always; each single flag when set; and each "photon matched
/// within 0.1 and ..." counter when the photon matched within 0.1 and the
/// other condition holds, whatever the remaining flags say.
pub proof fn law_observe_counts_what_it_names(
    before: HgammaClosureCounters,
    f: HgammaClosureEventFlags,
    after: HgammaClosureCounters,
)
    requires
        counts_after(before, f, after),
    ensures
        after.events_total == before.events_total + 1,
        f.has_gen_h ==> after.events_with_gen_h == before.events_with_gen_h + 1,
        !f.has_gen_h ==> after.events_with_gen_h == before.events_with_gen_h,
        f.has_gen_hgamma ==> after.events_with_gen_hgamma == before.events_with_gen_hgamma + 1,
        !f.has_gen_hgamma ==> after.events_with_gen_hgamma == before.events_with_gen_hgamma,
        f.has_reco_photon_preselection ==> after.events_with_reco_photon_preselection
            == before.events_with_reco_photon_preselection + 1,
        !f.has_reco_photon_preselection ==> after.events_with_reco_photon_preselection
            == before.events_with_reco_photon_preselection,
        f.photon_matched_dr_0p1 ==> after.events_with_reco_photon_matched_dr_0p1
            == before.events_with_reco_photon_matched_dr_0p1 + 1,
        !f.photon_matched_dr_0p1 ==> after.events_with_reco_photon_matched_dr_0p1
            == before.events_with_reco_photon_matched_dr_0p1,
        f.photon_matched_dr_0p2 ==> after.events_with_reco_photon_matched_dr_0p2
            == before.events_with_reco_photon_matched_dr_0p2 + 1,
        !f.photon_matched_dr_0p2 ==> after.events_with_reco_photon_matched_dr_0p2
            == before.events_with_reco_photon_matched_dr_0p2,
        f.photon_matched_dr_0p1 && f.has_os_track_pair ==> after.events_with_reco_photon_matched_dr_0p1_and_any_os_track_pair
            == before.events_with_reco_photon_matched_dr_0p1_and_any_os_track_pair + 1,
        !(f.photon_matched_dr_0p1 && f.has_os_track_pair)
            ==> after.events_with_reco_photon_matched_dr_0p1_and_any_os_track_pair
            == before.events_with_reco_photon_matched_dr_0p1_and_any_os_track_pair,
        f.photon_matched_dr_0p1 && f.has_accepted_candidate
            ==> after.events_with_reco_photon_matched_dr_0p1_and_accepted_candidate
            == before.events_with_reco_photon_matched_dr_0p1_and_accepted_candidate + 1,
        !(f.photon_matched_dr_0p1 && f.has_accepted_candidate)
            ==> after.events_with_reco_photon_matched_dr_0p1_and_accepted_candidate
            == before.events_with_reco_photon_matched_dr_0p1_and_accepted_candidate,
        f.photon_matched_dr_0p1 && f.higgs_closed_mass_10
            ==> after.events_with_reco_photon_matched_dr_0p1_and_higgs_closed_mass_10
            == before.events_with_reco_photon_matched_dr_0p1_and_higgs_closed_mass_10 + 1,
        !(f.photon_matched_dr_0p1 && f.higgs_closed_mass_10)
            ==> after.events_with_reco_photon_matched_dr_0p1_and_higgs_closed_mass_10
            == before.events_with_reco_photon_matched_dr_0p1_and_higgs_closed_mass_10,
        f.photon_matched_dr_0p1 && f.higgs_closed_mass_15
            ==> after.events_with_reco_photon_matched_dr_0p1_and_higgs_closed_mass_15
            == before.events_with_reco_photon_matched_dr_0p1_and_higgs_closed_mass_15 + 1,
        !(f.photon_matched_dr_0p1 && f.higgs_closed_mass_15)
            ==> after.events_with_reco_photon_matched_dr_0p1_and_higgs_closed_mass_15
            == before.events_with_reco_photon_matched_dr_0p1_and_higgs_closed_mass_15,
        f.photon_matched_dr_0p1 && f.higgs_closed_mass_20
            ==> after.events_with_reco_photon_matched_dr_0p1_and_higgs_closed_mass_20
            == before.events_with_reco_photon_matched_dr_0p1_and_higgs_closed_mass_20 + 1,
        !(f.photon_matched_dr_0p1 && f.higgs_closed_mass_20)
            ==> after.events_with_reco_photon_matched_dr_0p1_and_higgs_closed_mass_20
            == before.events_with_reco_photon_matched_dr_0p1_and_higgs_closed_mass_20,
{
}

} // verus!
