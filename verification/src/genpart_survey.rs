//! Survey of how a generator record stores the H -> rho gamma topology:
//! per-event flags and occurrence counts, their sum over events, and the
//! recommendation that follows from them.
use vstd::prelude::*;
use vstd::string::*;
use std::collections::BTreeMap;

use crate::genealogy::{
    ancestor_has_pdg, has_ancestor_with, is_descendant, law_ancestor_code_is_reached_particle, GenPartIds,
};
use crate::tally::{
    bump, count_in, lemma_occurrences_bounds, lemma_tally_concat, lemma_tally_empty,
    merge_map, merged, occurrences, ordered_keys, summed, tally,
};

verus! {

/// The PDG codes whose counts the text summary always lists.
pub const KEY_PDGS: [i32; 10] = [25, 22, 113, 211, -211i32, 111, 221, 223, 213, -213];

/// The PDG codes of the particles of interest.
pub const INTEREST_PDGS: [i32; 5] = [25, 22, 113, 211, -211];

/// A PDG code among `INTEREST_PDGS`: H, photon, rho0, pi+ and pi-.
pub open spec fn interest_pdg(p: i32) -> bool {
    p == 25 || p == 22 || p == 113 || p == 211 || p == -211i32
}

/// Whether `p` is one of `INTEREST_PDGS`.
pub fn is_interest_pdg(p: i32) -> (b: bool)
    ensures
        b == interest_pdg(p),
{
    let codes = INTEREST_PDGS;
    assert(codes@ =~= seq![25i32, 22, 113, 211, -211i32]);
    let mut i: usize = 0;
    while i < 5
        invariant
            codes@ == seq![25i32, 22, 113, 211, -211i32],
            i <= 5,
            forall|j: int| 0 <= j < i ==> codes@[j] != p,
        decreases 5 - i,
    {
        if codes[i] == p {
            return true;
        }
        i += 1;
    }
    assert(codes@[0] != p && codes@[1] != p && codes@[2] != p && codes@[3] != p && codes@[4] != p);
    false
}

/// What one event's generator record shows.
#[derive(Clone, Debug, Default, PartialEq)]
pub struct EventSurveySummary {
    pub n_genpart: usize,
    pub contains_higgs: bool,
    pub contains_rho0: bool,
    pub contains_photon: bool,
    pub contains_pi_plus_pi_minus: bool,
    pub contains_h_gamma_pions: bool,
    pub explicit_h_to_rho_gamma: bool,
    pub explicit_rho_to_pions: bool,
    pub any_photon_with_higgs_ancestor: bool,
    pub any_pi_plus_with_higgs_ancestor: bool,
    pub any_pi_minus_with_higgs_ancestor: bool,
    pub any_pi_plus_with_rho_ancestor: bool,
    pub any_pi_minus_with_rho_ancestor: bool,
    pub any_rho_with_higgs_ancestor: bool,
    pub signed_pdg_counts: BTreeMap<i32, u64>,
    pub abs_pdg_counts: BTreeMap<i32, u64>,
    pub status_counts: BTreeMap<(i32, i32), u64>,
    pub status_flags_counts: BTreeMap<(i32, u16), u64>,
    pub status_status_flags_counts: BTreeMap<(i32, i32, u16), u64>,
    pub mother_daughter_counts: BTreeMap<(i32, i32), u64>,
}

/// The absolute value of a PDG code; `i32::MIN` stays as it is, as `abs`
/// leaves it in optimized builds.
pub open spec fn abs_pdg(p: i32) -> i32 {
    if p < 0 && p != i32::MIN {
        (-p) as i32
    } else {
        p
    }
}

/// The PDG code of the mother of particle `i`, or 0 when it has none in range.
pub open spec fn mother_pdg(ps: Seq<GenPartIds>, i: int) -> i32 {
    match ps[i].mother {
        Some(m) => if m < ps.len() {
            ps[m as int].pdg_id
        } else {
            0
        },
        None => 0,
    }
}

/// The signed pdgId of each particle.
pub open spec fn signed_keys(ps: Seq<GenPartIds>) -> Seq<i32> {
    Seq::new(ps.len(), |i: int| ps[i].pdg_id)
}

/// The absolute pdgId of each particle.
pub open spec fn abs_keys(ps: Seq<GenPartIds>) -> Seq<i32> {
    Seq::new(ps.len(), |i: int| abs_pdg(ps[i].pdg_id))
}

/// The (pdgId, status) of each particle.
pub open spec fn status_keys(ps: Seq<GenPartIds>) -> Seq<(i32, i32)> {
    Seq::new(ps.len(), |i: int| (ps[i].pdg_id, ps[i].status))
}

/// The (pdgId, statusFlags) of each particle.
pub open spec fn flags_keys(ps: Seq<GenPartIds>) -> Seq<(i32, u16)> {
    Seq::new(ps.len(), |i: int| (ps[i].pdg_id, ps[i].status_flags))
}

/// The (pdgId, status, statusFlags) of each particle.
pub open spec fn status_flags_keys(ps: Seq<GenPartIds>) -> Seq<(i32, i32, u16)> {
    Seq::new(ps.len(), |i: int| (ps[i].pdg_id, ps[i].status, ps[i].status_flags))
}

/// The (mother pdgId, pdgId) of each particle, 0 for a missing mother.
pub open spec fn mother_daughter_keys(ps: Seq<GenPartIds>) -> Seq<(i32, i32)> {
    Seq::new(ps.len(), |i: int| (mother_pdg(ps, i), ps[i].pdg_id))
}

/// Some particle has `pdg`.
pub open spec fn has_pdg(ps: Seq<GenPartIds>, pdg: i32) -> bool {
    exists|i: int| 0 <= i < ps.len() && ps[i].pdg_id == pdg
}

/// Some particle with `pdg` has an ancestor with `ancestor_pdg`.
pub open spec fn has_pdg_with_ancestor(ps: Seq<GenPartIds>, pdg: i32, ancestor_pdg: i32) -> bool {
    exists|i: int| 0 <= i < ps.len() && ps[i].pdg_id == pdg && has_ancestor_with(ps, i, ancestor_pdg)
}

/// Some particle with `pdg` is the mother of a particle with `a` and of one with `b`.
pub open spec fn has_decay(ps: Seq<GenPartIds>, pdg: i32, a: i32, b: i32) -> bool {
    exists|i: int|
        0 <= i < ps.len() && ps[i].pdg_id == pdg && has_child(ps, i, a) && has_child(ps, i, b)
}

/// Some particle with `pdg` has particle `i` as its mother.
pub open spec fn has_child(ps: Seq<GenPartIds>, i: int, pdg: i32) -> bool {
    exists|j: int| 0 <= j < ps.len() && ps[j].mother == Some(i as usize) && ps[j].pdg_id == pdg
}

/// `s` is the survey of the event `ps`.
pub open spec fn is_event_summary(ps: Seq<GenPartIds>, s: EventSurveySummary) -> bool {
    &&& s.n_genpart == ps.len()
    &&& s.contains_higgs == has_pdg(ps, 25)
    &&& s.contains_rho0 == has_pdg(ps, 113)
    &&& s.contains_photon == has_pdg(ps, 22)
    &&& s.contains_pi_plus_pi_minus == (has_pdg(ps, 211) && has_pdg(ps, -211i32))
    &&& s.contains_h_gamma_pions == (has_pdg(ps, 25) && has_pdg(ps, 22) && has_pdg(ps, 211)
        && has_pdg(ps, -211i32))
    &&& s.explicit_h_to_rho_gamma == has_decay(ps, 25, 113, 22)
    &&& s.explicit_rho_to_pions == has_decay(ps, 113, 211, -211i32)
    &&& s.any_photon_with_higgs_ancestor == has_pdg_with_ancestor(ps, 22, 25)
    &&& s.any_pi_plus_with_higgs_ancestor == has_pdg_with_ancestor(ps, 211, 25)
    &&& s.any_pi_minus_with_higgs_ancestor == has_pdg_with_ancestor(ps, -211i32, 25)
    &&& s.any_pi_plus_with_rho_ancestor == has_pdg_with_ancestor(ps, 211, 113)
    &&& s.any_pi_minus_with_rho_ancestor == has_pdg_with_ancestor(ps, -211i32, 113)
    &&& s.any_rho_with_higgs_ancestor == has_pdg_with_ancestor(ps, 113, 25)
    &&& s.signed_pdg_counts@ == tally(signed_keys(ps))
    &&& s.abs_pdg_counts@ == tally(abs_keys(ps))
    &&& s.status_counts@ == tally(status_keys(ps))
    &&& s.status_flags_counts@ == tally(flags_keys(ps))
    &&& s.status_status_flags_counts@ == tally(status_flags_keys(ps))
    &&& s.mother_daughter_counts@ == tally(mother_daughter_keys(ps))
}

fn abs_pdg_of(p: i32) -> (r: i32)
    ensures
        r == abs_pdg(p),
{
    if p < 0 && p != i32::MIN {
        -p
    } else {
        p
    }
}

/// Whether some particle with `pdg` has particle `i` as its mother.
fn has_child_with(ps: &[GenPartIds], i: usize, pdg: i32) -> (b: bool)
    ensures
        b == has_child(ps@, i as int, pdg),
{
    let mut j: usize = 0;
    while j < ps.len()
        invariant
            j <= ps@.len(),
            forall|k: int| 0 <= k < j ==> !(ps@[k].mother == Some(i) && ps@[k].pdg_id == pdg),
        decreases ps.len() - j,
    {
        if ps[j].mother == Some(i) && ps[j].pdg_id == pdg {
            return true;
        }
        j += 1;
    }
    false
}

/// Whether some ancestor of particle `index` (following mother links, each
/// particle at most once) has pdgId `ancestor_pdg_id`.
pub fn has_ancestor_pdg_id(particles: &[GenPartIds], index: usize, ancestor_pdg_id: i32) -> (b: bool)
    ensures
        b == has_ancestor_with(particles@, index as int, ancestor_pdg_id),
{
    ancestor_has_pdg(particles, index, ancestor_pdg_id)
}

/// Whether some particle with `pdg` is the mother of particles with `a` and `b`.
fn has_decay_of(ps: &[GenPartIds], pdg: i32, a: i32, b: i32) -> (r: bool)
    ensures
        r == has_decay(ps@, pdg, a, b),
{
    let mut i: usize = 0;
    while i < ps.len()
        invariant
            i <= ps@.len(),
            forall|k: int|
                0 <= k < i ==> !(ps@[k].pdg_id == pdg && has_child(ps@, k, a) && has_child(ps@, k, b)),
        decreases ps.len() - i,
    {
        if ps[i].pdg_id == pdg && has_child_with(ps, i, a) && has_child_with(ps, i, b) {
            return true;
        }
        i += 1;
    }
    false
}

proof fn lemma_keys_take<A>(keys: Seq<A>, i: int)
    requires
        0 <= i < keys.len(),
    ensures
        keys.take(i + 1) == keys.take(i).push(keys[i]),
{
    assert(keys.take(i + 1) =~= keys.take(i).push(keys[i]));
}

/// Whether some particle has `pdg`.
fn any_pdg(ps: &[GenPartIds], pdg: i32) -> (b: bool)
    ensures
        b == has_pdg(ps@, pdg),
{
    let mut i: usize = 0;
    while i < ps.len()
        invariant
            i <= ps@.len(),
            forall|k: int| 0 <= k < i ==> ps@[k].pdg_id != pdg,
        decreases ps.len() - i,
    {
        if ps[i].pdg_id == pdg {
            return true;
        }
        i += 1;
    }
    false
}

/// Whether some particle with `pdg` has an ancestor with `ancestor_pdg`.
fn any_with_ancestor(ps: &[GenPartIds], pdg: i32, ancestor_pdg: i32) -> (b: bool)
    ensures
        b == has_pdg_with_ancestor(ps@, pdg, ancestor_pdg),
{
    let mut i: usize = 0;
    while i < ps.len()
        invariant
            i <= ps@.len(),
            forall|k: int|
                0 <= k < i ==> !(ps@[k].pdg_id == pdg && has_ancestor_with(ps@, k, ancestor_pdg)),
        decreases ps.len() - i,
    {
        if ps[i].pdg_id == pdg && ancestor_has_pdg(ps, i, ancestor_pdg) {
            return true;
        }
        i += 1;
    }
    false
}

/// The signed pdgId of each particle.
fn signed_key_vec(ps: &[GenPartIds]) -> (v: Vec<i32>)
    ensures
        v@ == signed_keys(ps@),
{
    let n = ps.len();
    let mut v: Vec<i32> = Vec::new();
    let mut i: usize = 0;
    while i < n
        invariant
            n == ps@.len(),
            i <= n,
            v@ == signed_keys(ps@).take(i as int),
        decreases n - i,
    {
        let p = ps[i];
        v.push(p.pdg_id);
        proof {
            lemma_keys_take(signed_keys(ps@), i as int);
        }
        i += 1;
    }
    assert(signed_keys(ps@).take(n as int) =~= signed_keys(ps@));
    v
}

/// The absolute pdgId of each particle.
fn abs_key_vec(ps: &[GenPartIds]) -> (v: Vec<i32>)
    ensures
        v@ == abs_keys(ps@),
{
    let n = ps.len();
    let mut v: Vec<i32> = Vec::new();
    let mut i: usize = 0;
    while i < n
        invariant
            n == ps@.len(),
            i <= n,
            v@ == abs_keys(ps@).take(i as int),
        decreases n - i,
    {
        let p = ps[i];
        v.push(abs_pdg_of(p.pdg_id));
        proof {
            lemma_keys_take(abs_keys(ps@), i as int);
        }
        i += 1;
    }
    assert(abs_keys(ps@).take(n as int) =~= abs_keys(ps@));
    v
}

/// The (pdgId, status) of each particle.
fn status_key_vec(ps: &[GenPartIds]) -> (v: Vec<(i32, i32)>)
    ensures
        v@ == status_keys(ps@),
{
    let n = ps.len();
    let mut v: Vec<(i32, i32)> = Vec::new();
    let mut i: usize = 0;
    while i < n
        invariant
            n == ps@.len(),
            i <= n,
            v@ == status_keys(ps@).take(i as int),
        decreases n - i,
    {
        let p = ps[i];
        v.push((p.pdg_id, p.status));
        proof {
            lemma_keys_take(status_keys(ps@), i as int);
        }
        i += 1;
    }
    assert(status_keys(ps@).take(n as int) =~= status_keys(ps@));
    v
}

/// The (pdgId, statusFlags) of each particle.
fn flags_key_vec(ps: &[GenPartIds]) -> (v: Vec<(i32, u16)>)
    ensures
        v@ == flags_keys(ps@),
{
    let n = ps.len();
    let mut v: Vec<(i32, u16)> = Vec::new();
    let mut i: usize = 0;
    while i < n
        invariant
            n == ps@.len(),
            i <= n,
            v@ == flags_keys(ps@).take(i as int),
        decreases n - i,
    {
        let p = ps[i];
        v.push((p.pdg_id, p.status_flags));
        proof {
            lemma_keys_take(flags_keys(ps@), i as int);
        }
        i += 1;
    }
    assert(flags_keys(ps@).take(n as int) =~= flags_keys(ps@));
    v
}

/// The (pdgId, status, statusFlags) of each particle.
fn status_flags_key_vec(ps: &[GenPartIds]) -> (v: Vec<(i32, i32, u16)>)
    ensures
        v@ == status_flags_keys(ps@),
{
    let n = ps.len();
    let mut v: Vec<(i32, i32, u16)> = Vec::new();
    let mut i: usize = 0;
    while i < n
        invariant
            n == ps@.len(),
            i <= n,
            v@ == status_flags_keys(ps@).take(i as int),
        decreases n - i,
    {
        let p = ps[i];
        v.push((p.pdg_id, p.status, p.status_flags));
        proof {
            lemma_keys_take(status_flags_keys(ps@), i as int);
        }
        i += 1;
    }
    assert(status_flags_keys(ps@).take(n as int) =~= status_flags_keys(ps@));
    v
}

/// The (mother pdgId, pdgId) of each particle.
fn mother_daughter_key_vec(ps: &[GenPartIds]) -> (v: Vec<(i32, i32)>)
    ensures
        v@ == mother_daughter_keys(ps@),
{
    let n = ps.len();
    let mut v: Vec<(i32, i32)> = Vec::new();
    let mut i: usize = 0;
    while i < n
        invariant
            n == ps@.len(),
            i <= n,
            v@ == mother_daughter_keys(ps@).take(i as int),
        decreases n - i,
    {
        let p = ps[i];
        let mpdg: i32 = match p.mother {
            Some(m) => if m < n {
                ps[m].pdg_id
            } else {
                0
            },
            None => 0,
        };
        v.push((mpdg, p.pdg_id));
        proof {
            lemma_keys_take(mother_daughter_keys(ps@), i as int);
        }
        i += 1;
    }
    assert(mother_daughter_keys(ps@).take(n as int) =~= mother_daughter_keys(ps@));
    v
}

/// How often each key occurs.
pub fn count_all<K: Ord + Copy>(keys: &Vec<K>) -> (m: BTreeMap<K, u64>)
    requires
        ordered_keys::<K>(),
    ensures
        m@ == tally(keys@),
{
    let mut m: BTreeMap<K, u64> = BTreeMap::new();
    proof {
        lemma_tally_empty::<K>();
        assert(keys@.take(0) =~= Seq::<K>::empty());
    }
    let mut i: usize = 0;
    while i < keys.len()
        invariant
            ordered_keys::<K>(),
            i <= keys@.len(),
            m@ == tally(keys@.take(i as int)),
        decreases keys.len() - i,
    {
        proof {
            lemma_keys_take(keys@, i as int);
        }
        bump(&mut m, keys[i], Ghost(keys@.take(i as int)));
        i += 1;
    }
    assert(keys@.take(keys@.len() as int) =~= keys@);
    m
}

/// Surveys one event's generator record.
pub fn survey_event(particles: &[GenPartIds]) -> (s: EventSurveySummary)
    ensures
        is_event_summary(particles@, s),
{
    let higgs = any_pdg(particles, 25);
    let photon = any_pdg(particles, 22);
    let pipi = any_pdg(particles, 211) && any_pdg(particles, -211);
    let s = EventSurveySummary {
        n_genpart: particles.len(),
        contains_higgs: higgs,
        contains_rho0: any_pdg(particles, 113),
        contains_photon: photon,
        contains_pi_plus_pi_minus: pipi,
        contains_h_gamma_pions: higgs && photon && pipi,
        explicit_h_to_rho_gamma: has_decay_of(particles, 25, 113, 22),
        explicit_rho_to_pions: has_decay_of(particles, 113, 211, -211i32),
        any_photon_with_higgs_ancestor: any_with_ancestor(particles, 22, 25),
        any_pi_plus_with_higgs_ancestor: any_with_ancestor(particles, 211, 25),
        any_pi_minus_with_higgs_ancestor: any_with_ancestor(particles, -211, 25),
        any_pi_plus_with_rho_ancestor: any_with_ancestor(particles, 211, 113),
        any_pi_minus_with_rho_ancestor: any_with_ancestor(particles, -211, 113),
        any_rho_with_higgs_ancestor: any_with_ancestor(particles, 113, 25),
        signed_pdg_counts: count_all(&signed_key_vec(particles)),
        abs_pdg_counts: count_all(&abs_key_vec(particles)),
        status_counts: count_all(&status_key_vec(particles)),
        status_flags_counts: count_all(&flags_key_vec(particles)),
        status_status_flags_counts: count_all(&status_flags_key_vec(particles)),
        mother_daughter_counts: count_all(&mother_daughter_key_vec(particles)),
    };
    s
}

/// One surveyed event kept as an example.
#[derive(Clone, Debug, PartialEq)]
pub struct SurveyedEvent {
    pub event_id: String,
    pub particles: Vec<GenPartIds>,
    pub summary: EventSurveySummary,
}

/// The survey of a sequence of events.
#[derive(Clone, Debug, Default, PartialEq)]
pub struct GenPartSurvey {
    pub processed_events: u64,
    pub events_with_genpart: u64,
    pub events_with_higgs: u64,
    pub events_with_rho0: u64,
    pub events_with_photon: u64,
    pub events_with_pi_plus_pi_minus: u64,
    pub events_with_h_gamma_pions: u64,
    pub events_with_explicit_h_to_rho_gamma: u64,
    pub events_with_explicit_rho_to_pions: u64,
    pub events_with_photon_higgs_ancestor: u64,
    pub events_with_pi_plus_higgs_ancestor: u64,
    pub events_with_pi_minus_higgs_ancestor: u64,
    pub events_with_pi_plus_rho_ancestor: u64,
    pub events_with_pi_minus_rho_ancestor: u64,
    pub events_with_rho_higgs_ancestor: u64,
    pub signed_pdg_counts: BTreeMap<i32, u64>,
    pub abs_pdg_counts: BTreeMap<i32, u64>,
    pub status_counts: BTreeMap<(i32, i32), u64>,
    pub status_flags_counts: BTreeMap<(i32, u16), u64>,
    pub status_status_flags_counts: BTreeMap<(i32, i32, u16), u64>,
    pub mother_daughter_counts: BTreeMap<(i32, i32), u64>,
    pub events: Vec<SurveyedEvent>,
}

/// The event-level question number `w` (0 to 13) that the survey counts, in
/// the order of the survey's counters: any particle at all, a Higgs, a rho0,
/// a photon, both charged pions, Higgs + photon + both pions, an explicit
/// H -> rho0 gamma decay, an explicit rho0 -> pi+ pi- decay, then photon,
/// pi+, pi- with a Higgs ancestor, pi+, pi- with a rho0 ancestor, and a rho0
/// with a Higgs ancestor.
pub open spec fn event_flag(ps: Seq<GenPartIds>, w: int) -> bool {
    if w == 0 {
        ps.len() > 0
    } else if w == 1 {
        has_pdg(ps, 25)
    } else if w == 2 {
        has_pdg(ps, 113)
    } else if w == 3 {
        has_pdg(ps, 22)
    } else if w == 4 {
        has_pdg(ps, 211) && has_pdg(ps, -211i32)
    } else if w == 5 {
        has_pdg(ps, 25) && has_pdg(ps, 22) && has_pdg(ps, 211) && has_pdg(ps, -211i32)
    } else if w == 6 {
        has_decay(ps, 25, 113, 22)
    } else if w == 7 {
        has_decay(ps, 113, 211, -211i32)
    } else if w == 8 {
        has_pdg_with_ancestor(ps, 22, 25)
    } else if w == 9 {
        has_pdg_with_ancestor(ps, 211, 25)
    } else if w == 10 {
        has_pdg_with_ancestor(ps, -211i32, 25)
    } else if w == 11 {
        has_pdg_with_ancestor(ps, 211, 113)
    } else if w == 12 {
        has_pdg_with_ancestor(ps, -211i32, 113)
    } else {
        has_pdg_with_ancestor(ps, 113, 25)
    }
}

/// Number of events for which question `w` holds.
pub open spec fn count_events(es: Seq<(String, Vec<GenPartIds>)>, w: int) -> nat
    decreases es.len(),
{
    if es.len() == 0 {
        0
    } else {
        count_events(es.drop_last(), w) + if event_flag(es.last().1@, w) {
            1nat
        } else {
            0nat
        }
    }
}

/// Number of particles over all events.
pub open spec fn total_particles(es: Seq<(String, Vec<GenPartIds>)>) -> nat
    decreases es.len(),
{
    if es.len() == 0 {
        0
    } else {
        total_particles(es.drop_last()) + es.last().1@.len()
    }
}

/// The signed pdgIds of all events, event after event.
pub open spec fn all_signed_keys(es: Seq<(String, Vec<GenPartIds>)>) -> Seq<i32>
    decreases es.len(),
{
    if es.len() == 0 {
        Seq::empty()
    } else {
        all_signed_keys(es.drop_last()) + signed_keys(es.last().1@)
    }
}

/// The absolute pdgIds of all events, event after event.
pub open spec fn all_abs_keys(es: Seq<(String, Vec<GenPartIds>)>) -> Seq<i32>
    decreases es.len(),
{
    if es.len() == 0 {
        Seq::empty()
    } else {
        all_abs_keys(es.drop_last()) + abs_keys(es.last().1@)
    }
}

/// The (pdgId, status) pairs of all events, event after event.
pub open spec fn all_status_keys(es: Seq<(String, Vec<GenPartIds>)>) -> Seq<(i32, i32)>
    decreases es.len(),
{
    if es.len() == 0 {
        Seq::empty()
    } else {
        all_status_keys(es.drop_last()) + status_keys(es.last().1@)
    }
}

/// The (pdgId, statusFlags) pairs of all events, event after event.
pub open spec fn all_flags_keys(es: Seq<(String, Vec<GenPartIds>)>) -> Seq<(i32, u16)>
    decreases es.len(),
{
    if es.len() == 0 {
        Seq::empty()
    } else {
        all_flags_keys(es.drop_last()) + flags_keys(es.last().1@)
    }
}

/// The (pdgId, status, statusFlags) triples of all events, event after event.
pub open spec fn all_status_flags_keys(es: Seq<(String, Vec<GenPartIds>)>) -> Seq<(i32, i32, u16)>
    decreases es.len(),
{
    if es.len() == 0 {
        Seq::empty()
    } else {
        all_status_flags_keys(es.drop_last()) + status_flags_keys(es.last().1@)
    }
}

/// The (mother pdgId, pdgId) pairs of all events, event after event.
pub open spec fn all_mother_daughter_keys(es: Seq<(String, Vec<GenPartIds>)>) -> Seq<(i32, i32)>
    decreases es.len(),
{
    if es.len() == 0 {
        Seq::empty()
    } else {
        all_mother_daughter_keys(es.drop_last()) + mother_daughter_keys(es.last().1@)
    }
}

/// How many surveyed events are kept as examples: eight per requested
/// example (saturating), and at least one.
pub open spec fn kept_events_cap(example_limit: usize) -> int {
    let eight = if example_limit * 8 > usize::MAX {
        usize::MAX as int
    } else {
        example_limit * 8
    };
    if eight < 1 {
        1
    } else {
        eight
    }
}

/// The event counters of a survey, in question order.
pub open spec fn survey_counter(s: GenPartSurvey, w: int) -> u64 {
    if w == 0 {
        s.events_with_genpart
    } else if w == 1 {
        s.events_with_higgs
    } else if w == 2 {
        s.events_with_rho0
    } else if w == 3 {
        s.events_with_photon
    } else if w == 4 {
        s.events_with_pi_plus_pi_minus
    } else if w == 5 {
        s.events_with_h_gamma_pions
    } else if w == 6 {
        s.events_with_explicit_h_to_rho_gamma
    } else if w == 7 {
        s.events_with_explicit_rho_to_pions
    } else if w == 8 {
        s.events_with_photon_higgs_ancestor
    } else if w == 9 {
        s.events_with_pi_plus_higgs_ancestor
    } else if w == 10 {
        s.events_with_pi_minus_higgs_ancestor
    } else if w == 11 {
        s.events_with_pi_plus_rho_ancestor
    } else if w == 12 {
        s.events_with_pi_minus_rho_ancestor
    } else {
        s.events_with_rho_higgs_ancestor
    }
}

/// `s` is the survey of the events `es`, keeping the first `cap` of them.
pub open spec fn is_survey_of(es: Seq<(String, Vec<GenPartIds>)>, cap: int, s: GenPartSurvey) -> bool {
    &&& counters_match(es, s)
    &&& counts_match(es, s)
    &&& s.events@.len() == if es.len() < cap {
        es.len() as int
    } else {
        cap
    }
    &&& forall|i: int|
        0 <= i < s.events@.len() ==> #[trigger] is_kept_event(es[i], s.events@[i])
}

/// `k` keeps the event `e` together with its survey.
pub open spec fn is_kept_event(e: (String, Vec<GenPartIds>), k: SurveyedEvent) -> bool {
    &&& k.event_id@ == e.0@
    &&& k.particles@ == e.1@
    &&& is_event_summary(e.1@, k.summary)
}

/// The counters of `s` are those of the events `es`.
pub open spec fn counters_match(es: Seq<(String, Vec<GenPartIds>)>, s: GenPartSurvey) -> bool {
    &&& s.processed_events == es.len()
    &&& forall|w: int| 0 <= w < 14 ==> #[trigger] survey_counter(s, w) == count_events(es, w)
}

/// The occurrence counts of `s` are those of the events `es`.
pub open spec fn counts_match(es: Seq<(String, Vec<GenPartIds>)>, s: GenPartSurvey) -> bool {
    &&& s.signed_pdg_counts@ == tally(all_signed_keys(es))
    &&& s.abs_pdg_counts@ == tally(all_abs_keys(es))
    &&& s.status_counts@ == tally(all_status_keys(es))
    &&& s.status_flags_counts@ == tally(all_flags_keys(es))
    &&& s.status_status_flags_counts@ == tally(all_status_flags_keys(es))
    &&& s.mother_daughter_counts@ == tally(all_mother_daughter_keys(es))
}

/// The question `w` as the summary of an event answers it.
pub open spec fn summary_flag(s: EventSurveySummary, w: int) -> bool {
    if w == 0 {
        s.n_genpart > 0
    } else if w == 1 {
        s.contains_higgs
    } else if w == 2 {
        s.contains_rho0
    } else if w == 3 {
        s.contains_photon
    } else if w == 4 {
        s.contains_pi_plus_pi_minus
    } else if w == 5 {
        s.contains_h_gamma_pions
    } else if w == 6 {
        s.explicit_h_to_rho_gamma
    } else if w == 7 {
        s.explicit_rho_to_pions
    } else if w == 8 {
        s.any_photon_with_higgs_ancestor
    } else if w == 9 {
        s.any_pi_plus_with_higgs_ancestor
    } else if w == 10 {
        s.any_pi_minus_with_higgs_ancestor
    } else if w == 11 {
        s.any_pi_plus_with_rho_ancestor
    } else if w == 12 {
        s.any_pi_minus_with_rho_ancestor
    } else {
        s.any_rho_with_higgs_ancestor
    }
}

proof fn lemma_count_events_bound(es: Seq<(String, Vec<GenPartIds>)>, w: int)
    ensures
        count_events(es, w) <= es.len(),
    decreases es.len(),
{
    if es.len() > 0 {
        lemma_count_events_bound(es.drop_last(), w);
    }
}

fn bit(b: bool) -> (r: u64)
    ensures
        r == if b {
            1u64
        } else {
            0u64
        },
{
    if b {
        1
    } else {
        0
    }
}

/// Counts the flags of one more event.
fn add_flags(
    survey: &mut GenPartSurvey,
    summary: &EventSurveySummary,
    Ghost(es): Ghost<Seq<(String, Vec<GenPartIds>)>>,
    Ghost(ev): Ghost<(String, Vec<GenPartIds>)>,
)
    requires
        counters_match(es, *old(survey)),
        is_event_summary(ev.1@, *summary),
        es.len() < u64::MAX,
    ensures
        counters_match(es.push(ev), *final(survey)),
        final(survey).signed_pdg_counts == old(survey).signed_pdg_counts,
        final(survey).abs_pdg_counts == old(survey).abs_pdg_counts,
        final(survey).status_counts == old(survey).status_counts,
        final(survey).status_flags_counts == old(survey).status_flags_counts,
        final(survey).status_status_flags_counts == old(survey).status_status_flags_counts,
        final(survey).mother_daughter_counts == old(survey).mother_daughter_counts,
        final(survey).events == old(survey).events,
{
    let ghost e2 = es.push(ev);
    proof {
        assert(e2.drop_last() =~= es);
        assert forall|w: int| 0 <= w < 14 implies summary_flag(*summary, w) == event_flag(ev.1@, w)
            && count_events(e2, w) == count_events(es, w) + if event_flag(ev.1@, w) {
            1nat
        } else {
            0nat
        } by {}
        assert forall|w: int| 0 <= w < 14 implies #[trigger] count_events(es, w) <= es.len() by {
            lemma_count_events_bound(es, w);
        }
        assert(survey_counter(*survey, 0) == count_events(es, 0));
        assert(survey_counter(*survey, 1) == count_events(es, 1));
        assert(survey_counter(*survey, 2) == count_events(es, 2));
        assert(survey_counter(*survey, 3) == count_events(es, 3));
        assert(survey_counter(*survey, 4) == count_events(es, 4));
        assert(survey_counter(*survey, 5) == count_events(es, 5));
        assert(survey_counter(*survey, 6) == count_events(es, 6));
        assert(survey_counter(*survey, 7) == count_events(es, 7));
        assert(survey_counter(*survey, 8) == count_events(es, 8));
        assert(survey_counter(*survey, 9) == count_events(es, 9));
        assert(survey_counter(*survey, 10) == count_events(es, 10));
        assert(survey_counter(*survey, 11) == count_events(es, 11));
        assert(survey_counter(*survey, 12) == count_events(es, 12));
        assert(survey_counter(*survey, 13) == count_events(es, 13));
    }
    survey.processed_events += 1;
    survey.events_with_genpart += bit(summary.n_genpart > 0);
    survey.events_with_higgs += bit(summary.contains_higgs);
    survey.events_with_rho0 += bit(summary.contains_rho0);
    survey.events_with_photon += bit(summary.contains_photon);
    survey.events_with_pi_plus_pi_minus += bit(summary.contains_pi_plus_pi_minus);
    survey.events_with_h_gamma_pions += bit(summary.contains_h_gamma_pions);
    survey.events_with_explicit_h_to_rho_gamma += bit(summary.explicit_h_to_rho_gamma);
    survey.events_with_explicit_rho_to_pions += bit(summary.explicit_rho_to_pions);
    survey.events_with_photon_higgs_ancestor += bit(summary.any_photon_with_higgs_ancestor);
    survey.events_with_pi_plus_higgs_ancestor += bit(summary.any_pi_plus_with_higgs_ancestor);
    survey.events_with_pi_minus_higgs_ancestor += bit(summary.any_pi_minus_with_higgs_ancestor);
    survey.events_with_pi_plus_rho_ancestor += bit(summary.any_pi_plus_with_rho_ancestor);
    survey.events_with_pi_minus_rho_ancestor += bit(summary.any_pi_minus_with_rho_ancestor);
    survey.events_with_rho_higgs_ancestor += bit(summary.any_rho_with_higgs_ancestor);
    proof {
        assert forall|w: int| 0 <= w < 14 implies #[trigger] survey_counter(*survey, w) == count_events(e2, w) by {
        }
    }
}

/// The advice a survey gives on how to find the truth objects.
pub open spec fn survey_recommendation(s: GenPartSurvey) -> Seq<char> {
    if s.events_with_explicit_h_to_rho_gamma > 0 && s.events_with_explicit_rho_to_pions > 0 {
        "explicit rho0 exists; use last-copy rho0 and descendants"@
    } else if s.events_with_photon_higgs_ancestor > 0 && s.events_with_pi_plus_higgs_ancestor > 0
        && s.events_with_pi_minus_higgs_ancestor > 0 {
        "rho0 absent or incomplete; match final-state photon and charged pions from Higgs ancestry"@
    } else {
        "ancestry unreliable; use nearest final-state photon/pi+pi- matching in signal MC, plus generator-level invariant-mass checks"@
    }
}

/// How the truth objects should be found, given what the survey saw: the
/// explicit decay chain when both explicit decays occur, Higgs ancestry of
/// the photon and both pions when those occur, else nearest matching.
pub fn recommendation(survey: &GenPartSurvey) -> (r: &'static str)
    ensures
        r@ == survey_recommendation(*survey),
{
    if survey.events_with_explicit_h_to_rho_gamma > 0 && survey.events_with_explicit_rho_to_pions > 0 {
        "explicit rho0 exists; use last-copy rho0 and descendants"
    } else if survey.events_with_photon_higgs_ancestor > 0 && survey.events_with_pi_plus_higgs_ancestor
        > 0 && survey.events_with_pi_minus_higgs_ancestor > 0 {
        "rho0 absent or incomplete; match final-state photon and charged pions from Higgs ancestry"
    } else {
        "ancestry unreliable; use nearest final-state photon/pi+pi- matching in signal MC, plus generator-level invariant-mass checks"
    }
}

proof fn lemma_all_keys_len(es: Seq<(String, Vec<GenPartIds>)>)
    ensures
        all_signed_keys(es).len() == total_particles(es),
        all_abs_keys(es).len() == total_particles(es),
        all_status_keys(es).len() == total_particles(es),
        all_flags_keys(es).len() == total_particles(es),
        all_status_flags_keys(es).len() == total_particles(es),
        all_mother_daughter_keys(es).len() == total_particles(es),
    decreases es.len(),
{
    if es.len() > 0 {
        lemma_all_keys_len(es.drop_last());
    }
}

proof fn lemma_total_particles_prefix(es: Seq<(String, Vec<GenPartIds>)>, i: int)
    requires
        0 <= i <= es.len(),
    ensures
        total_particles(es.take(i)) <= total_particles(es),
    decreases es.len(),
{
    if i < es.len() {
        assert(es.take(i) =~= es.drop_last().take(i));
        lemma_total_particles_prefix(es.drop_last(), i);
    } else {
        assert(es.take(i) =~= es);
    }
}

/// Adds the occurrence counts of one more event.
fn add_counts(
    survey: &mut GenPartSurvey,
    summary: &EventSurveySummary,
    Ghost(es): Ghost<Seq<(String, Vec<GenPartIds>)>>,
    Ghost(ev): Ghost<(String, Vec<GenPartIds>)>,
)
    requires
        counts_match(es, *old(survey)),
        is_event_summary(ev.1@, *summary),
        total_particles(es) + ev.1@.len() <= u64::MAX,
    ensures
        counts_match(es.push(ev), *final(survey)),
        final(survey).processed_events == old(survey).processed_events,
        forall|w: int| #[trigger] survey_counter(*final(survey), w) == survey_counter(*old(survey), w),
        final(survey).events == old(survey).events,
{
    let ghost e2 = es.push(ev);
    let ghost ps = ev.1@;
    proof {
        assert(e2.drop_last() =~= es);
        lemma_all_keys_len(es);
        lemma_tally_concat(all_signed_keys(es), signed_keys(ps));
        lemma_tally_concat(all_abs_keys(es), abs_keys(ps));
        lemma_tally_concat(all_status_keys(es), status_keys(ps));
        lemma_tally_concat(all_flags_keys(es), flags_keys(ps));
        lemma_tally_concat(all_status_flags_keys(es), status_flags_keys(ps));
        lemma_tally_concat(all_mother_daughter_keys(es), mother_daughter_keys(ps));
    }
    merge_map(&mut survey.signed_pdg_counts, &summary.signed_pdg_counts);
    merge_map(&mut survey.abs_pdg_counts, &summary.abs_pdg_counts);
    merge_map(&mut survey.status_counts, &summary.status_counts);
    merge_map(&mut survey.status_flags_counts, &summary.status_flags_counts);
    merge_map(&mut survey.status_status_flags_counts, &summary.status_status_flags_counts);
    merge_map(&mut survey.mother_daughter_counts, &summary.mother_daughter_counts);
}

/// Surveys a sequence of events: counts the events for which each question
/// holds, adds up the occurrence counts, and keeps the first events (eight
/// per requested example, at least one) with their surveys.
pub fn survey_events(events: Vec<(String, Vec<GenPartIds>)>, example_limit: usize) -> (s: GenPartSurvey)
    requires
        total_particles(events@) <= u64::MAX,
    ensures
        is_survey_of(events@, kept_events_cap(example_limit), s),
{
    let ghost all = events@;
    let cap: usize = {
        let eight: usize = match example_limit.checked_mul(8) {
            Some(v) => v,
            None => usize::MAX,
        };
        if eight < 1 {
            1
        } else {
            eight
        }
    };
    let mut survey = GenPartSurvey {
        processed_events: 0,
        events_with_genpart: 0,
        events_with_higgs: 0,
        events_with_rho0: 0,
        events_with_photon: 0,
        events_with_pi_plus_pi_minus: 0,
        events_with_h_gamma_pions: 0,
        events_with_explicit_h_to_rho_gamma: 0,
        events_with_explicit_rho_to_pions: 0,
        events_with_photon_higgs_ancestor: 0,
        events_with_pi_plus_higgs_ancestor: 0,
        events_with_pi_minus_higgs_ancestor: 0,
        events_with_pi_plus_rho_ancestor: 0,
        events_with_pi_minus_rho_ancestor: 0,
        events_with_rho_higgs_ancestor: 0,
        signed_pdg_counts: BTreeMap::new(),
        abs_pdg_counts: BTreeMap::new(),
        status_counts: BTreeMap::new(),
        status_flags_counts: BTreeMap::new(),
        status_status_flags_counts: BTreeMap::new(),
        mother_daughter_counts: BTreeMap::new(),
        events: Vec::new(),
    };
    proof {
        lemma_tally_empty::<i32>();
        lemma_tally_empty::<(i32, i32)>();
        lemma_tally_empty::<(i32, u16)>();
        lemma_tally_empty::<(i32, i32, u16)>();
        assert(all.take(0) =~= Seq::<(String, Vec<GenPartIds>)>::empty());
        assert forall|w: int| 0 <= w < 14 implies #[trigger] survey_counter(survey, w)
            == count_events(all.take(0), w) by {}
    }
    let n = events.len();
    for ev in it: events
        invariant
            all == events@,
            all.len() == n,
            it.seq() == all,
            total_particles(all) <= u64::MAX,
            cap == kept_events_cap(example_limit),
            counters_match(all.take(it.index() as int), survey),
            counts_match(all.take(it.index() as int), survey),
            survey.events@.len() == if it.index() < cap {
                it.index() as int
            } else {
                cap as int
            },
            forall|i: int|
                0 <= i < survey.events@.len() ==> #[trigger] is_kept_event(all[i], survey.events@[i]),
    {
        let ghost idx = it.index() as int;
        let ghost before = all.take(idx);
        let (event_id, particles) = ev;
        let summary = survey_event(particles.as_slice());
        proof {
            assert(all[idx] == ev);
            assert(all.take(idx + 1) =~= before.push(ev));
            lemma_total_particles_prefix(all, idx + 1);
            assert(before.push(ev).drop_last() =~= before);
        }
        add_flags(&mut survey, &summary, Ghost(before), Ghost(ev));
        add_counts(&mut survey, &summary, Ghost(before), Ghost(ev));
        let ghost counted = survey;
        assert(counters_match(all.take(idx + 1), counted));
        if survey.events.len() < cap {
            survey.events.push(SurveyedEvent { event_id, particles, summary });
        }
        proof {
            assert forall|w: int| 0 <= w < 14 implies #[trigger] survey_counter(survey, w)
                == count_events(all.take(idx + 1), w) by {
                assert(survey_counter(counted, w) == count_events(all.take(idx + 1), w));
            }
        }
    }
    proof {
        assert(all.take(all.len() as int) =~= all);
    }
    survey
}

/// The two summaries record the same answers and the same counts.
pub open spec fn same_summary(a: EventSurveySummary, b: EventSurveySummary) -> bool {
    &&& a.n_genpart == b.n_genpart
    &&& a.contains_higgs == b.contains_higgs
    &&& a.contains_rho0 == b.contains_rho0
    &&& a.contains_photon == b.contains_photon
    &&& a.contains_pi_plus_pi_minus == b.contains_pi_plus_pi_minus
    &&& a.contains_h_gamma_pions == b.contains_h_gamma_pions
    &&& a.explicit_h_to_rho_gamma == b.explicit_h_to_rho_gamma
    &&& a.explicit_rho_to_pions == b.explicit_rho_to_pions
    &&& a.any_photon_with_higgs_ancestor == b.any_photon_with_higgs_ancestor
    &&& a.any_pi_plus_with_higgs_ancestor == b.any_pi_plus_with_higgs_ancestor
    &&& a.any_pi_minus_with_higgs_ancestor == b.any_pi_minus_with_higgs_ancestor
    &&& a.any_pi_plus_with_rho_ancestor == b.any_pi_plus_with_rho_ancestor
    &&& a.any_pi_minus_with_rho_ancestor == b.any_pi_minus_with_rho_ancestor
    &&& a.any_rho_with_higgs_ancestor == b.any_rho_with_higgs_ancestor
    &&& a.signed_pdg_counts@ == b.signed_pdg_counts@
    &&& a.abs_pdg_counts@ == b.abs_pdg_counts@
    &&& a.status_counts@ == b.status_counts@
    &&& a.status_flags_counts@ == b.status_flags_counts@
    &&& a.status_status_flags_counts@ == b.status_status_flags_counts@
    &&& a.mother_daughter_counts@ == b.mother_daughter_counts@
}

/// The two kept events hold the same identifier, particles and summary.
pub open spec fn same_event(a: SurveyedEvent, b: SurveyedEvent) -> bool {
    &&& a.event_id@ == b.event_id@
    &&& a.particles@ == b.particles@
    &&& same_summary(a.summary, b.summary)
}

impl EventSurveySummary {
    /// A copy of the summary.
    pub fn duplicate(&self) -> (c: Self)
        ensures
            same_summary(c, *self),
    {
        EventSurveySummary {
            n_genpart: self.n_genpart,
            contains_higgs: self.contains_higgs,
            contains_rho0: self.contains_rho0,
            contains_photon: self.contains_photon,
            contains_pi_plus_pi_minus: self.contains_pi_plus_pi_minus,
            contains_h_gamma_pions: self.contains_h_gamma_pions,
            explicit_h_to_rho_gamma: self.explicit_h_to_rho_gamma,
            explicit_rho_to_pions: self.explicit_rho_to_pions,
            any_photon_with_higgs_ancestor: self.any_photon_with_higgs_ancestor,
            any_pi_plus_with_higgs_ancestor: self.any_pi_plus_with_higgs_ancestor,
            any_pi_minus_with_higgs_ancestor: self.any_pi_minus_with_higgs_ancestor,
            any_pi_plus_with_rho_ancestor: self.any_pi_plus_with_rho_ancestor,
            any_pi_minus_with_rho_ancestor: self.any_pi_minus_with_rho_ancestor,
            any_rho_with_higgs_ancestor: self.any_rho_with_higgs_ancestor,
            signed_pdg_counts: self.signed_pdg_counts.clone(),
            abs_pdg_counts: self.abs_pdg_counts.clone(),
            status_counts: self.status_counts.clone(),
            status_flags_counts: self.status_flags_counts.clone(),
            status_status_flags_counts: self.status_status_flags_counts.clone(),
            mother_daughter_counts: self.mother_daughter_counts.clone(),
        }
    }
}

impl SurveyedEvent {
    /// A copy of the kept event.
    pub fn duplicate(&self) -> (c: Self)
        ensures
            same_event(c, *self),
    {
        let mut particles: Vec<GenPartIds> = Vec::new();
        let mut i: usize = 0;
        while i < self.particles.len()
            invariant
                i <= self.particles@.len(),
                particles@ == self.particles@.take(i as int),
            decreases self.particles.len() - i,
        {
            particles.push(self.particles[i]);
            assert(self.particles@.take(i + 1) =~= self.particles@.take(i as int).push(self.particles@[i as int]));
            i += 1;
        }
        assert(self.particles@.take(self.particles@.len() as int) =~= self.particles@);
        SurveyedEvent { event_id: self.event_id.clone(), particles, summary: self.summary.duplicate() }
    }
}

/// Kept events chosen for printing, at most `limit` of each kind.
pub struct InterestingExamples {
    pub with_higgs: Vec<SurveyedEvent>,
    pub with_rho0: Vec<SurveyedEvent>,
    pub with_gamma_pions_no_rho: Vec<SurveyedEvent>,
    pub current_truth_not_found: Vec<SurveyedEvent>,
}

/// Example kind `w`: 0 a Higgs, 1 a rho0, 2 a photon and both pions but no
/// rho0, 3 neither an explicit H -> rho0 gamma decay nor H, photon and both
/// pions (where the simple truth finder finds nothing).
pub open spec fn example_kind(s: EventSurveySummary, w: int) -> bool {
    if w == 0 {
        s.contains_higgs
    } else if w == 1 {
        s.contains_rho0
    } else if w == 2 {
        s.contains_photon && s.contains_pi_plus_pi_minus && !s.contains_rho0
    } else {
        !s.explicit_h_to_rho_gamma && !s.contains_h_gamma_pions
    }
}

/// The indices of the first `limit` events of `es` of kind `w`, in order.
pub open spec fn picks(es: Seq<SurveyedEvent>, w: int, limit: int) -> Seq<int>
    decreases es.len(),
{
    if es.len() == 0 {
        Seq::empty()
    } else {
        let p = picks(es.drop_last(), w, limit);
        if example_kind(es.last().summary, w) && p.len() < limit {
            p.push(es.len() - 1)
        } else {
            p
        }
    }
}

/// `v` holds copies of the events of `es` at the indices `p`.
pub open spec fn copies_of(v: Seq<SurveyedEvent>, es: Seq<SurveyedEvent>, p: Seq<int>) -> bool {
    &&& v.len() == p.len()
    &&& forall|i: int| 0 <= i < v.len() ==> same_event(#[trigger] v[i], es[p[i]])
}

/// The picked positions are at most `limit`, each a position of `es`.
pub proof fn lemma_picks_bounds(es: Seq<SurveyedEvent>, w: int, limit: int)
    requires
        limit >= 0,
    ensures
        picks(es, w, limit).len() <= limit,
        forall|i: int| 0 <= i < picks(es, w, limit).len() ==> 0 <= #[trigger] picks(es, w, limit)[i] < es.len(),
    decreases es.len(),
{
    if es.len() > 0 {
        lemma_picks_bounds(es.drop_last(), w, limit);
    }
}

/// At most `limit` examples are kept per kind, each of its kind, in the
/// order of the events, and no event of the kind is skipped while fewer than
/// `limit` have been kept.
pub proof fn law_examples_are_bounded_and_of_their_kind(es: Seq<SurveyedEvent>, w: int, limit: int)
    requires
        limit >= 0,
    ensures
        picks(es, w, limit).len() <= limit,
        forall|i: int|
            0 <= i < picks(es, w, limit).len() ==> example_kind(es[#[trigger] picks(es, w, limit)[i]].summary, w),
        forall|i: int, j: int|
            0 <= i < j < picks(es, w, limit).len() ==> #[trigger] picks(es, w, limit)[i] < #[trigger] picks(
                es,
                w,
                limit,
            )[j],
        picks(es, w, limit).len() < limit ==> forall|k: int|
            0 <= k < es.len() && example_kind(es[k].summary, w) ==> picks(es, w, limit).contains(k),
    decreases es.len(),
{
    lemma_picks_bounds(es, w, limit);
    if es.len() > 0 {
        let d = es.drop_last();
        law_examples_are_bounded_and_of_their_kind(d, w, limit);
        lemma_picks_bounds(d, w, limit);
        let p = picks(d, w, limit);
        assert forall|i: int| 0 <= i < p.len() implies es[p[i]] == d[p[i]] by {}
        if example_kind(es.last().summary, w) && p.len() < limit {
            let q = p.push(es.len() - 1);
            assert(q[q.len() - 1] == es.len() - 1);
            assert forall|k: int| 0 <= k < es.len() && example_kind(es[k].summary, w) && q.len() < limit implies q.contains(k) by {
                if k < es.len() - 1 {
                    assert(d[k] == es[k]);
                    assert(p.contains(k));
                    let i = choose|i: int| 0 <= i < p.len() && p[i] == k;
                    assert(q[i] == k);
                } else {
                    assert(q[q.len() - 1] == k);
                }
            }
        } else {
            assert forall|k: int| 0 <= k < es.len() && example_kind(es[k].summary, w) && p.len() < limit implies p.contains(k) by {
                if k < es.len() - 1 {
                    assert(d[k] == es[k]);
                } else {
                    assert(es[k] == es.last());
                }
            }
        }
    }
}

fn pick_into(
    v: &mut Vec<SurveyedEvent>,
    event: &SurveyedEvent,
    wanted: bool,
    limit: usize,
    Ghost(es): Ghost<Seq<SurveyedEvent>>,
    Ghost(w): Ghost<int>,
)
    requires
        es.len() > 0,
        es.last() == *event,
        wanted == example_kind(event.summary, w),
        copies_of(old(v)@, es, picks(es.drop_last(), w, limit as int)),
    ensures
        copies_of(final(v)@, es, picks(es, w, limit as int)),
{
    let ghost p = picks(es.drop_last(), w, limit as int);
    proof {
        lemma_picks_bounds(es.drop_last(), w, limit as int);
        assert forall|i: int| 0 <= i < p.len() implies es.drop_last()[p[i]] == es[p[i]] by {}
    }
    if wanted && v.len() < limit {
        v.push(event.duplicate());
        proof {
            let q = p.push(es.len() - 1);
            assert forall|i: int| 0 <= i < v@.len() implies same_event(#[trigger] v@[i], es[q[i]]) by {
                if i < p.len() {
                    assert(v@[i] == old(v)@[i]);
                }
            }
        }
    }
}

impl InterestingExamples {
    /// Walks the kept events in order and keeps, for each example kind, the
    /// first `limit` events of that kind.
    pub fn from_events(events: &[SurveyedEvent], limit: usize) -> (x: Self)
        ensures
            copies_of(x.with_higgs@, events@, picks(events@, 0, limit as int)),
            copies_of(x.with_rho0@, events@, picks(events@, 1, limit as int)),
            copies_of(x.with_gamma_pions_no_rho@, events@, picks(events@, 2, limit as int)),
            copies_of(x.current_truth_not_found@, events@, picks(events@, 3, limit as int)),
    {
        let mut x = InterestingExamples {
            with_higgs: Vec::new(),
            with_rho0: Vec::new(),
            with_gamma_pions_no_rho: Vec::new(),
            current_truth_not_found: Vec::new(),
        };
        let mut i: usize = 0;
        while i < events.len()
            invariant
                i <= events@.len(),
                copies_of(x.with_higgs@, events@, picks(events@.take(i as int), 0, limit as int)),
                copies_of(x.with_rho0@, events@, picks(events@.take(i as int), 1, limit as int)),
                copies_of(x.with_gamma_pions_no_rho@, events@, picks(events@.take(i as int), 2, limit as int)),
                copies_of(x.current_truth_not_found@, events@, picks(events@.take(i as int), 3, limit as int)),
            decreases events.len() - i,
        {
            let event = &events[i];
            let ghost es = events@.take(i + 1);
            proof {
                assert(es.drop_last() =~= events@.take(i as int));
                assert(es.last() == *event);
                lemma_picks_bounds(events@.take(i as int), 0, limit as int);
                lemma_picks_bounds(events@.take(i as int), 1, limit as int);
                lemma_picks_bounds(events@.take(i as int), 2, limit as int);
                lemma_picks_bounds(events@.take(i as int), 3, limit as int);
                assert forall|w: int, v: Seq<SurveyedEvent>|
                    copies_of(v, events@, picks(events@.take(i as int), w, limit as int)) implies #[trigger] copies_of(
                        v,
                        es,
                        picks(es.drop_last(), w, limit as int),
                    ) by {
                    lemma_picks_bounds(events@.take(i as int), w, limit as int);
                    let p = picks(events@.take(i as int), w, limit as int);
                    assert forall|j: int| 0 <= j < v.len() implies same_event(#[trigger] v[j], es[p[j]]) by {
                        assert(es[p[j]] == events@[p[j]]);
                    }
                }
            }
            let s = &event.summary;
            pick_into(&mut x.with_higgs, event, s.contains_higgs, limit, Ghost(es), Ghost(0));
            pick_into(&mut x.with_rho0, event, s.contains_rho0, limit, Ghost(es), Ghost(1));
            pick_into(
                &mut x.with_gamma_pions_no_rho,
                event,
                s.contains_photon && s.contains_pi_plus_pi_minus && !s.contains_rho0,
                limit,
                Ghost(es),
                Ghost(2),
            );
            pick_into(
                &mut x.current_truth_not_found,
                event,
                !s.explicit_h_to_rho_gamma && !s.contains_h_gamma_pions,
                limit,
                Ghost(es),
                Ghost(3),
            );
            proof {
                lemma_picks_bounds(es, 0, limit as int);
                lemma_picks_bounds(es, 1, limit as int);
                lemma_picks_bounds(es, 2, limit as int);
                lemma_picks_bounds(es, 3, limit as int);
                assert forall|w: int, v: Seq<SurveyedEvent>|
                    copies_of(v, es, picks(es, w, limit as int)) implies #[trigger] copies_of(
                        v,
                        events@,
                        picks(events@.take(i + 1), w, limit as int),
                    ) by {
                    lemma_picks_bounds(es, w, limit as int);
                    let p = picks(es, w, limit as int);
                    assert forall|j: int| 0 <= j < v.len() implies same_event(#[trigger] v[j], events@[p[j]]) by {
                        assert(es[p[j]] == events@[p[j]]);
                    }
                }
            }
            i += 1;
        }
        assert(events@.take(events@.len() as int) =~= events@);
        x
    }
}

/// The positions of the kept events that `from_events` copies into example
/// kind `kind` (numbered as in `example_kind`), in order.
pub fn example_indices(events: &[SurveyedEvent], kind: u8, limit: usize) -> (v: Vec<usize>)
    requires
        kind < 4,
    ensures
        v@.len() == picks(events@, kind as int, limit as int).len(),
        forall|i: int| 0 <= i < v@.len() ==> v@[i] as int == picks(events@, kind as int, limit as int)[i],
{
    let mut v: Vec<usize> = Vec::new();
    let mut i: usize = 0;
    while i < events.len()
        invariant
            kind < 4,
            i <= events@.len(),
            v@.len() == picks(events@.take(i as int), kind as int, limit as int).len(),
            forall|j: int|
                0 <= j < v@.len() ==> v@[j] as int == picks(events@.take(i as int), kind as int, limit as int)[j],
        decreases events.len() - i,
    {
        let ghost es = events@.take(i + 1);
        proof {
            assert(es.drop_last() =~= events@.take(i as int));
            assert(es.last() == events@[i as int]);
        }
        let s = &events[i].summary;
        let wanted = if kind == 0 {
            s.contains_higgs
        } else if kind == 1 {
            s.contains_rho0
        } else if kind == 2 {
            s.contains_photon && s.contains_pi_plus_pi_minus && !s.contains_rho0
        } else {
            !s.explicit_h_to_rho_gamma && !s.contains_h_gamma_pions
        };
        if wanted && v.len() < limit {
            v.push(i);
        }
        i += 1;
    }
    assert(events@.take(events@.len() as int) =~= events@);
    v
}

/// Whether particle `index` of a kept event, or its mother, has a code of interest.
pub fn particle_of_interest(event: &SurveyedEvent, index: usize) -> (b: bool)
    requires
        index < event.particles@.len(),
    ensures
        b == (interest_pdg(event.particles@[index as int].pdg_id) || match event.particles@[index as int].mother {
            Some(m) => m < event.particles@.len() && interest_pdg(event.particles@[m as int].pdg_id),
            None => false,
        }),
{
    let particle = event.particles[index];
    if is_interest_pdg(particle.pdg_id) {
        return true;
    }
    match particle.mother {
        Some(m) => m < event.particles.len() && is_interest_pdg(event.particles[m].pdg_id),
        None => false,
    }
}

proof fn lemma_survey_concat(a: Seq<(String, Vec<GenPartIds>)>, b: Seq<(String, Vec<GenPartIds>)>)
    ensures
        forall|w: int| #[trigger] count_events(a + b, w) == count_events(a, w) + count_events(b, w),
        total_particles(a + b) == total_particles(a) + total_particles(b),
        all_signed_keys(a + b) == all_signed_keys(a) + all_signed_keys(b),
        all_abs_keys(a + b) == all_abs_keys(a) + all_abs_keys(b),
        all_status_keys(a + b) == all_status_keys(a) + all_status_keys(b),
        all_flags_keys(a + b) == all_flags_keys(a) + all_flags_keys(b),
        all_status_flags_keys(a + b) == all_status_flags_keys(a) + all_status_flags_keys(b),
        all_mother_daughter_keys(a + b) == all_mother_daughter_keys(a) + all_mother_daughter_keys(b),
    decreases b.len(),
{
    if b.len() == 0 {
        assert(a + b =~= a);
        assert(all_signed_keys(a) + Seq::empty() =~= all_signed_keys(a));
        assert(all_abs_keys(a) + Seq::empty() =~= all_abs_keys(a));
        assert(all_status_keys(a) + Seq::empty() =~= all_status_keys(a));
        assert(all_flags_keys(a) + Seq::empty() =~= all_flags_keys(a));
        assert(all_status_flags_keys(a) + Seq::empty() =~= all_status_flags_keys(a));
        assert(all_mother_daughter_keys(a) + Seq::empty() =~= all_mother_daughter_keys(a));
    } else {
        lemma_survey_concat(a, b.drop_last());
        assert((a + b).drop_last() =~= a + b.drop_last());
        assert((a + b).last() == b.last());
        assert forall|w: int| #[trigger] count_events(a + b, w) == count_events(a, w) + count_events(b, w) by {
            assert(count_events(a + b.drop_last(), w) == count_events(a, w) + count_events(b.drop_last(), w));
        }
        let ps = b.last().1@;
        assert(all_signed_keys(a) + all_signed_keys(b.drop_last()) + signed_keys(ps) =~= all_signed_keys(a)
            + (all_signed_keys(b.drop_last()) + signed_keys(ps)));
        assert(all_abs_keys(a) + all_abs_keys(b.drop_last()) + abs_keys(ps) =~= all_abs_keys(a) + (
        all_abs_keys(b.drop_last()) + abs_keys(ps)));
        assert(all_status_keys(a) + all_status_keys(b.drop_last()) + status_keys(ps) =~= all_status_keys(a)
            + (all_status_keys(b.drop_last()) + status_keys(ps)));
        assert(all_flags_keys(a) + all_flags_keys(b.drop_last()) + flags_keys(ps) =~= all_flags_keys(a) + (
        all_flags_keys(b.drop_last()) + flags_keys(ps)));
        assert(all_status_flags_keys(a) + all_status_flags_keys(b.drop_last()) + status_flags_keys(ps)
            =~= all_status_flags_keys(a) + (all_status_flags_keys(b.drop_last()) + status_flags_keys(ps)));
        assert(all_mother_daughter_keys(a) + all_mother_daughter_keys(b.drop_last())
            + mother_daughter_keys(ps) =~= all_mother_daughter_keys(a) + (all_mother_daughter_keys(
            b.drop_last(),
        ) + mother_daughter_keys(ps)));
    }
}

/// Surveying two event streams one after the other gives the sum of their
/// surveys: every counter adds up and every occurrence count merges key-wise.
pub proof fn law_survey_of_concatenation(
    a: Seq<(String, Vec<GenPartIds>)>,
    b: Seq<(String, Vec<GenPartIds>)>,
    sa: GenPartSurvey,
    sb: GenPartSurvey,
    s: GenPartSurvey,
)
    requires
        counters_match(a, sa),
        counts_match(a, sa),
        counters_match(b, sb),
        counts_match(b, sb),
        counters_match(a + b, s),
        counts_match(a + b, s),
        total_particles(a + b) <= u64::MAX,
    ensures
        s.processed_events == sa.processed_events + sb.processed_events,
        forall|w: int| 0 <= w < 14 ==> #[trigger] survey_counter(s, w) == survey_counter(sa, w) + survey_counter(sb, w),
        s.signed_pdg_counts@ == merged(sa.signed_pdg_counts@, sb.signed_pdg_counts@),
        s.abs_pdg_counts@ == merged(sa.abs_pdg_counts@, sb.abs_pdg_counts@),
        s.status_counts@ == merged(sa.status_counts@, sb.status_counts@),
        s.status_flags_counts@ == merged(sa.status_flags_counts@, sb.status_flags_counts@),
        s.status_status_flags_counts@ == merged(sa.status_status_flags_counts@, sb.status_status_flags_counts@),
        s.mother_daughter_counts@ == merged(sa.mother_daughter_counts@, sb.mother_daughter_counts@),
{
    lemma_survey_concat(a, b);
    lemma_all_keys_len(a);
    lemma_all_keys_len(b);
    lemma_tally_concat(all_signed_keys(a), all_signed_keys(b));
    lemma_tally_concat(all_abs_keys(a), all_abs_keys(b));
    lemma_tally_concat(all_status_keys(a), all_status_keys(b));
    lemma_tally_concat(all_flags_keys(a), all_flags_keys(b));
    lemma_tally_concat(all_status_flags_keys(a), all_status_flags_keys(b));
    lemma_tally_concat(all_mother_daughter_keys(a), all_mother_daughter_keys(b));
    assert forall|w: int| 0 <= w < 14 implies #[trigger] survey_counter(s, w) == survey_counter(sa, w)
        + survey_counter(sb, w) by {
        assert(count_events(a + b, w) == count_events(a, w) + count_events(b, w));
    }
}

/// What one event's answers imply: each answer needs the particles it speaks
/// of, and any answer needs some particle.
proof fn lemma_event_flag_implications(ps: Seq<GenPartIds>)
    ensures
        forall|w: int| 1 <= w < 14 && #[trigger] event_flag(ps, w) ==> event_flag(ps, 0),
        event_flag(ps, 5) ==> event_flag(ps, 1) && event_flag(ps, 3) && event_flag(ps, 4),
        event_flag(ps, 6) ==> event_flag(ps, 1) && event_flag(ps, 2) && event_flag(ps, 3),
        event_flag(ps, 7) ==> event_flag(ps, 2) && event_flag(ps, 4),
        event_flag(ps, 8) ==> event_flag(ps, 3) && event_flag(ps, 1),
        event_flag(ps, 9) ==> event_flag(ps, 1),
        event_flag(ps, 10) ==> event_flag(ps, 1),
        event_flag(ps, 11) ==> event_flag(ps, 2),
        event_flag(ps, 12) ==> event_flag(ps, 2),
        event_flag(ps, 13) ==> event_flag(ps, 2) && event_flag(ps, 1),
{
    assert forall|pdg: i32, anc: i32| #[trigger] has_pdg_with_ancestor(ps, pdg, anc) implies has_pdg(ps, pdg)
        && has_pdg(ps, anc) by {
        let i = choose|i: int| 0 <= i < ps.len() && ps[i].pdg_id == pdg && has_ancestor_with(ps, i, anc);
        law_ancestor_code_is_reached_particle(ps, i, anc);
        let a = choose|a: int| 0 <= a < ps.len() && ps[a].pdg_id == anc && #[trigger] is_descendant(ps, i, a);
        assert(ps[a].pdg_id == anc);
    }
    assert forall|pdg: i32, x: i32, y: i32| #[trigger] has_decay(ps, pdg, x, y) implies has_pdg(ps, pdg)
        && has_pdg(ps, x) && has_pdg(ps, y) by {
        let i = choose|i: int| 0 <= i < ps.len() && ps[i].pdg_id == pdg && has_child(ps, i, x) && has_child(ps, i, y);
        let j = choose|j: int| 0 <= j < ps.len() && ps[j].mother == Some(i as usize) && ps[j].pdg_id == x;
        let k = choose|k: int| 0 <= k < ps.len() && ps[k].mother == Some(i as usize) && ps[k].pdg_id == y;
        assert(ps[j].pdg_id == x);
        assert(ps[k].pdg_id == y);
        assert(ps[i].pdg_id == pdg);
    }
    assert forall|pdg: i32| #[trigger] has_pdg(ps, pdg) implies ps.len() > 0 by {}
}

proof fn lemma_count_events_monotone(es: Seq<(String, Vec<GenPartIds>)>, w: int, v: int)
    requires
        forall|i: int| 0 <= i < es.len() && event_flag(#[trigger] es[i].1@, w) ==> event_flag(es[i].1@, v),
    ensures
        count_events(es, w) <= count_events(es, v),
    decreases es.len(),
{
    if es.len() > 0 {
        assert forall|i: int| 0 <= i < es.drop_last().len() && event_flag(#[trigger] es.drop_last()[i].1@, w) implies event_flag(
            es.drop_last()[i].1@,
            v,
        ) by {
            assert(es.drop_last()[i] == es[i]);
        }
        lemma_count_events_monotone(es.drop_last(), w, v);
        assert(es.last() == es[es.len() - 1]);
    }
}

/// The counters of a survey are ordered as the questions they answer: none
/// exceeds the number of events or the number of events with any particle,
/// and an event counted for a compound answer is counted for each part
/// (H + photon + both pions; an explicit decay needs its mother and its
/// daughters; a particle with an ancestor needs both codes present).
pub proof fn law_survey_counters_are_ordered(es: Seq<(String, Vec<GenPartIds>)>, s: GenPartSurvey)
    requires
        counters_match(es, s),
    ensures
        forall|w: int| 0 <= w < 14 ==> #[trigger] survey_counter(s, w) <= s.events_with_genpart,
        s.events_with_genpart <= s.processed_events,
        s.events_with_h_gamma_pions <= s.events_with_higgs,
        s.events_with_h_gamma_pions <= s.events_with_photon,
        s.events_with_h_gamma_pions <= s.events_with_pi_plus_pi_minus,
        s.events_with_explicit_h_to_rho_gamma <= s.events_with_higgs,
        s.events_with_explicit_h_to_rho_gamma <= s.events_with_rho0,
        s.events_with_explicit_h_to_rho_gamma <= s.events_with_photon,
        s.events_with_explicit_rho_to_pions <= s.events_with_rho0,
        s.events_with_explicit_rho_to_pions <= s.events_with_pi_plus_pi_minus,
        s.events_with_photon_higgs_ancestor <= s.events_with_photon,
        s.events_with_photon_higgs_ancestor <= s.events_with_higgs,
        s.events_with_pi_plus_higgs_ancestor <= s.events_with_higgs,
        s.events_with_pi_minus_higgs_ancestor <= s.events_with_higgs,
        s.events_with_pi_plus_rho_ancestor <= s.events_with_rho0,
        s.events_with_pi_minus_rho_ancestor <= s.events_with_rho0,
        s.events_with_rho_higgs_ancestor <= s.events_with_rho0,
        s.events_with_rho_higgs_ancestor <= s.events_with_higgs,
{
    assert forall|i: int| 0 <= i < es.len() implies {
        let ps = (#[trigger] es[i]).1@;
        &&& forall|w: int| 1 <= w < 14 && #[trigger] event_flag(ps, w) ==> event_flag(ps, 0)
        &&& event_flag(ps, 5) ==> event_flag(ps, 1) && event_flag(ps, 3) && event_flag(ps, 4)
        &&& event_flag(ps, 6) ==> event_flag(ps, 1) && event_flag(ps, 2) && event_flag(ps, 3)
        &&& event_flag(ps, 7) ==> event_flag(ps, 2) && event_flag(ps, 4)
        &&& event_flag(ps, 8) ==> event_flag(ps, 3) && event_flag(ps, 1)
        &&& event_flag(ps, 9) ==> event_flag(ps, 1)
        &&& event_flag(ps, 10) ==> event_flag(ps, 1)
        &&& event_flag(ps, 11) ==> event_flag(ps, 2)
        &&& event_flag(ps, 12) ==> event_flag(ps, 2)
        &&& event_flag(ps, 13) ==> event_flag(ps, 2) && event_flag(ps, 1)
    } by {
        lemma_event_flag_implications(es[i].1@);
    }
    assert forall|w: int| 0 <= w < 14 implies #[trigger] survey_counter(s, w) <= s.events_with_genpart by {
        if w > 0 {
            lemma_count_events_monotone(es, w, 0);
        }
        assert(survey_counter(s, 0) == count_events(es, 0));
        assert(survey_counter(s, w) == count_events(es, w));
    }
    lemma_count_events_bound(es, 0);
    assert(survey_counter(s, 0) == count_events(es, 0));
    lemma_count_events_monotone(es, 5, 1);
    lemma_count_events_monotone(es, 5, 3);
    lemma_count_events_monotone(es, 5, 4);
    lemma_count_events_monotone(es, 6, 1);
    lemma_count_events_monotone(es, 6, 2);
    lemma_count_events_monotone(es, 6, 3);
    lemma_count_events_monotone(es, 7, 2);
    lemma_count_events_monotone(es, 7, 4);
    lemma_count_events_monotone(es, 8, 3);
    lemma_count_events_monotone(es, 8, 1);
    lemma_count_events_monotone(es, 9, 1);
    lemma_count_events_monotone(es, 10, 1);
    lemma_count_events_monotone(es, 11, 2);
    lemma_count_events_monotone(es, 12, 2);
    lemma_count_events_monotone(es, 13, 2);
    lemma_count_events_monotone(es, 13, 1);
    assert(survey_counter(s, 1) == count_events(es, 1));
    assert(survey_counter(s, 2) == count_events(es, 2));
    assert(survey_counter(s, 3) == count_events(es, 3));
    assert(survey_counter(s, 4) == count_events(es, 4));
    assert(survey_counter(s, 5) == count_events(es, 5));
    assert(survey_counter(s, 6) == count_events(es, 6));
    assert(survey_counter(s, 7) == count_events(es, 7));
    assert(survey_counter(s, 8) == count_events(es, 8));
    assert(survey_counter(s, 9) == count_events(es, 9));
    assert(survey_counter(s, 10) == count_events(es, 10));
    assert(survey_counter(s, 11) == count_events(es, 11));
    assert(survey_counter(s, 12) == count_events(es, 12));
    assert(survey_counter(s, 13) == count_events(es, 13));
}

proof fn lemma_abs_keys_map(es: Seq<(String, Vec<GenPartIds>)>)
    ensures
        all_abs_keys(es) == all_signed_keys(es).map_values(|p: i32| abs_pdg(p)),
    decreases es.len(),
{
    if es.len() > 0 {
        lemma_abs_keys_map(es.drop_last());
        let ps = es.last().1@;
        assert(abs_keys(ps) =~= signed_keys(ps).map_values(|p: i32| abs_pdg(p)));
        assert((all_signed_keys(es.drop_last()) + signed_keys(ps)).map_values(|p: i32| abs_pdg(p))
            =~= all_signed_keys(es.drop_last()).map_values(|p: i32| abs_pdg(p)) + signed_keys(ps).map_values(
            |p: i32| abs_pdg(p),
        ));
    } else {
        assert(all_signed_keys(es).map_values(|p: i32| abs_pdg(p)) =~= Seq::<i32>::empty());
    }
}

proof fn lemma_abs_occurrences(ks: Seq<i32>, a: i32)
    requires
        a != i32::MIN,
    ensures
        a > 0 ==> occurrences(ks.map_values(|p: i32| abs_pdg(p)), a) == occurrences(ks, a) + occurrences(
            ks,
            (-a) as i32,
        ),
        a < 0 ==> occurrences(ks.map_values(|p: i32| abs_pdg(p)), a) == 0,
        a == 0 ==> occurrences(ks.map_values(|p: i32| abs_pdg(p)), a) == occurrences(ks, a),
    decreases ks.len(),
{
    if ks.len() > 0 {
        lemma_abs_occurrences(ks.drop_last(), a);
        assert(ks.map_values(|p: i32| abs_pdg(p)).drop_last() =~= ks.drop_last().map_values(|p: i32| abs_pdg(p)));
        assert(ks.map_values(|p: i32| abs_pdg(p)).last() == abs_pdg(ks.last()));
    }
}

/// The absolute-code counts fold the two signs together: a positive code
/// counts the particles of that code and of its antiparticle, a negative code
/// (other than `i32::MIN`, which `abs` leaves unchanged) is never counted,
/// and code 0 counts as itself.
pub proof fn law_abs_counts_fold_signs(es: Seq<(String, Vec<GenPartIds>)>, s: GenPartSurvey, a: i32)
    requires
        counts_match(es, s),
        total_particles(es) <= u64::MAX,
        a != i32::MIN,
    ensures
        a > 0 ==> count_in(s.abs_pdg_counts@, a) == count_in(s.signed_pdg_counts@, a) + count_in(
            s.signed_pdg_counts@,
            (-a) as i32,
        ),
        a < 0 ==> count_in(s.abs_pdg_counts@, a) == 0,
        a == 0 ==> count_in(s.abs_pdg_counts@, a) == count_in(s.signed_pdg_counts@, a),
{
    let ks = all_signed_keys(es);
    lemma_abs_keys_map(es);
    lemma_all_keys_len(es);
    lemma_abs_occurrences(ks, a);
    let abs_ks = ks.map_values(|p: i32| abs_pdg(p));
    lemma_occurrences_bounds(ks, a);
    lemma_occurrences_bounds(ks, (-a) as i32);
    lemma_occurrences_bounds(abs_ks, a);
    if a > 0 {
        assert(occurrences(ks, a) + occurrences(ks, (-a) as i32) <= ks.len()) by {
            lemma_split_occurrences(ks, a);
        }
    }
}

proof fn lemma_split_occurrences(ks: Seq<i32>, a: i32)
    requires
        a > 0,
    ensures
        occurrences(ks, a) + occurrences(ks, (-a) as i32) <= ks.len(),
    decreases ks.len(),
{
    if ks.len() > 0 {
        lemma_split_occurrences(ks.drop_last(), a);
    }
}

/// Number of event summaries whose answer to question `w` is yes.
pub open spec fn count_flags(ss: Seq<EventSurveySummary>, w: int) -> nat
    decreases ss.len(),
{
    if ss.len() == 0 {
        0
    } else {
        count_flags(ss.drop_last(), w) + if summary_flag(ss.last(), w) {
            1nat
        } else {
            0nat
        }
    }
}

/// The signed-pdgId counts of each event summary.
pub open spec fn signed_maps(ss: Seq<EventSurveySummary>) -> Seq<Map<i32, u64>> {
    ss.map_values(|e: EventSurveySummary| e.signed_pdg_counts@)
}

/// The absolute-pdgId counts of each event summary.
pub open spec fn abs_maps(ss: Seq<EventSurveySummary>) -> Seq<Map<i32, u64>> {
    ss.map_values(|e: EventSurveySummary| e.abs_pdg_counts@)
}

/// The (pdgId, status) counts of each event summary.
pub open spec fn status_maps(ss: Seq<EventSurveySummary>) -> Seq<Map<(i32, i32), u64>> {
    ss.map_values(|e: EventSurveySummary| e.status_counts@)
}

/// The (pdgId, statusFlags) counts of each event summary.
pub open spec fn flags_maps(ss: Seq<EventSurveySummary>) -> Seq<Map<(i32, u16), u64>> {
    ss.map_values(|e: EventSurveySummary| e.status_flags_counts@)
}

/// The (pdgId, status, statusFlags) counts of each event summary.
pub open spec fn status_flags_maps(ss: Seq<EventSurveySummary>) -> Seq<Map<(i32, i32, u16), u64>> {
    ss.map_values(|e: EventSurveySummary| e.status_status_flags_counts@)
}

/// The (mother pdgId, pdgId) counts of each event summary.
pub open spec fn mother_daughter_maps(ss: Seq<EventSurveySummary>) -> Seq<Map<(i32, i32), u64>> {
    ss.map_values(|e: EventSurveySummary| e.mother_daughter_counts@)
}

proof fn lemma_summaries_add_up(es: Seq<(String, Vec<GenPartIds>)>, ss: Seq<EventSurveySummary>)
    requires
        ss.len() == es.len(),
        forall|i: int| 0 <= i < es.len() ==> #[trigger] is_event_summary(es[i].1@, ss[i]),
        total_particles(es) <= u64::MAX,
    ensures
        forall|w: int| #[trigger] count_events(es, w) == count_flags(ss, w),
        tally(all_signed_keys(es)) == summed(signed_maps(ss)),
        tally(all_abs_keys(es)) == summed(abs_maps(ss)),
        tally(all_status_keys(es)) == summed(status_maps(ss)),
        tally(all_flags_keys(es)) == summed(flags_maps(ss)),
        tally(all_status_flags_keys(es)) == summed(status_flags_maps(ss)),
        tally(all_mother_daughter_keys(es)) == summed(mother_daughter_maps(ss)),
    decreases es.len(),
{
    if es.len() == 0 {
        lemma_tally_empty::<i32>();
        lemma_tally_empty::<(i32, i32)>();
        lemma_tally_empty::<(i32, u16)>();
        lemma_tally_empty::<(i32, i32, u16)>();
    } else {
        let d = es.drop_last();
        let t = ss.drop_last();
        let ps = es.last().1@;
        let last = ss.last();
        assert forall|i: int| 0 <= i < d.len() implies #[trigger] is_event_summary(d[i].1@, t[i]) by {
            assert(is_event_summary(es[i].1@, ss[i]));
        }
        assert(is_event_summary(es[es.len() - 1].1@, ss[ss.len() - 1]));
        lemma_summaries_add_up(d, t);
        lemma_all_keys_len(d);
        lemma_tally_concat(all_signed_keys(d), signed_keys(ps));
        lemma_tally_concat(all_abs_keys(d), abs_keys(ps));
        lemma_tally_concat(all_status_keys(d), status_keys(ps));
        lemma_tally_concat(all_flags_keys(d), flags_keys(ps));
        lemma_tally_concat(all_status_flags_keys(d), status_flags_keys(ps));
        lemma_tally_concat(all_mother_daughter_keys(d), mother_daughter_keys(ps));
        assert(signed_maps(t) =~= signed_maps(ss).drop_last());
        assert(abs_maps(t) =~= abs_maps(ss).drop_last());
        assert(status_maps(t) =~= status_maps(ss).drop_last());
        assert(flags_maps(t) =~= flags_maps(ss).drop_last());
        assert(status_flags_maps(t) =~= status_flags_maps(ss).drop_last());
        assert(mother_daughter_maps(t) =~= mother_daughter_maps(ss).drop_last());
        assert forall|w: int| #[trigger] count_events(es, w) == count_flags(ss, w) by {
            assert(count_events(d, w) == count_flags(t, w));
            assert(summary_flag(last, w) == event_flag(ps, w));
        }
    }
}

/// A survey adds up its events' own summaries `ss`: it has processed each
/// event; the first counter is the number of events with some particle and
/// each other counter the number of events whose summary answers yes; each
/// of the six occurrence maps is the key-wise sum of the events' own maps;
/// and it keeps the first `min(n, max(1, 8 * example_limit))` events (the
/// product saturating), each with its identifier, particles and summary.
pub proof fn law_survey_sums_event_summaries(
    es: Seq<(String, Vec<GenPartIds>)>,
    example_limit: usize,
    s: GenPartSurvey,
    ss: Seq<EventSurveySummary>,
)
    requires
        is_survey_of(es, kept_events_cap(example_limit), s),
        total_particles(es) <= u64::MAX,
        ss.len() == es.len(),
        forall|i: int| 0 <= i < es.len() ==> #[trigger] is_event_summary(es[i].1@, ss[i]),
    ensures
        s.processed_events == ss.len(),
        s.events_with_genpart == count_flags(ss, 0),
        forall|i: int| 0 <= i < ss.len() ==> (summary_flag(#[trigger] ss[i], 0) <==> es[i].1@.len() > 0),
        forall|w: int| 0 <= w < 14 ==> #[trigger] survey_counter(s, w) == count_flags(ss, w),
        s.signed_pdg_counts@ == summed(signed_maps(ss)),
        s.abs_pdg_counts@ == summed(abs_maps(ss)),
        s.status_counts@ == summed(status_maps(ss)),
        s.status_flags_counts@ == summed(flags_maps(ss)),
        s.status_status_flags_counts@ == summed(status_flags_maps(ss)),
        s.mother_daughter_counts@ == summed(mother_daughter_maps(ss)),
        s.events@.len() == if es.len() < kept_events_cap(example_limit) {
            es.len() as int
        } else {
            kept_events_cap(example_limit)
        },
        forall|i: int|
            0 <= i < s.events@.len() ==> {
                &&& (#[trigger] s.events@[i]).event_id@ == es[i].0@
                &&& s.events@[i].particles@ == es[i].1@
                &&& same_summary(s.events@[i].summary, ss[i])
            },
{
    lemma_summaries_add_up(es, ss);
    assert forall|w: int| 0 <= w < 14 implies #[trigger] survey_counter(s, w) == count_flags(ss, w) by {
        assert(count_events(es, w) == count_flags(ss, w));
    }
    assert(survey_counter(s, 0) == count_flags(ss, 0));
    assert forall|i: int| 0 <= i < ss.len() implies (summary_flag(#[trigger] ss[i], 0) <==> es[i].1@.len() > 0) by {
        assert(is_event_summary(es[i].1@, ss[i]));
    }
    assert forall|i: int| 0 <= i < s.events@.len() implies {
        &&& (#[trigger] s.events@[i]).event_id@ == es[i].0@
        &&& s.events@[i].particles@ == es[i].1@
        &&& same_summary(s.events@[i].summary, ss[i])
    } by {
        assert(is_kept_event(es[i], s.events@[i]));
        assert(is_event_summary(es[i].1@, ss[i]));
    }
}

/// The survey's advice, by what the events showed: the explicit rho0 chain
/// exactly when some event has an explicit H -> rho0 gamma decay and some
/// event an explicit rho0 -> pi+ pi- decay; otherwise Higgs ancestry exactly
/// when some event has a photon, some a pi+ and some a pi- with a Higgs
/// ancestor; otherwise nearest matching. No other counter matters.
pub proof fn law_survey_advice(s: GenPartSurvey)
    ensures
        ({
            let r = survey_recommendation(s);
            let explicit = s.events_with_explicit_h_to_rho_gamma > 0 && s.events_with_explicit_rho_to_pions > 0;
            let ancestry = s.events_with_photon_higgs_ancestor > 0 && s.events_with_pi_plus_higgs_ancestor > 0
                && s.events_with_pi_minus_higgs_ancestor > 0;
            &&& r == "explicit rho0 exists; use last-copy rho0 and descendants"@ <==> explicit
            &&& r == "rho0 absent or incomplete; match final-state photon and charged pions from Higgs ancestry"@
                <==> !explicit && ancestry
            &&& r
                == "ancestry unreliable; use nearest final-state photon/pi+pi- matching in signal MC, plus generator-level invariant-mass checks"@
                <==> !explicit && !ancestry
        }),
{
    reveal_strlit("explicit rho0 exists; use last-copy rho0 and descendants");
    reveal_strlit("rho0 absent or incomplete; match final-state photon and charged pions from Higgs ancestry");
    reveal_strlit(
        "ancestry unreliable; use nearest final-state photon/pi+pi- matching in signal MC, plus generator-level invariant-mass checks",
    );
    assert("explicit rho0 exists; use last-copy rho0 and descendants"@.len() == 56);
    assert("rho0 absent or incomplete; match final-state photon and charged pions from Higgs ancestry"@.len() == 89);
    assert("ancestry unreliable; use nearest final-state photon/pi+pi- matching in signal MC, plus generator-level invariant-mass checks"@.len()
        == 124);
}

/// Two surveys that agree on the explicit-decay and Higgs-ancestry counts
/// get the same advice, whatever their other counters.
pub proof fn law_survey_advice_reads_only_decay_and_ancestry_counts(s: GenPartSurvey, t: GenPartSurvey)
    requires
        (s.events_with_explicit_h_to_rho_gamma > 0) == (t.events_with_explicit_h_to_rho_gamma > 0),
        (s.events_with_explicit_rho_to_pions > 0) == (t.events_with_explicit_rho_to_pions > 0),
        (s.events_with_photon_higgs_ancestor > 0) == (t.events_with_photon_higgs_ancestor > 0),
        (s.events_with_pi_plus_higgs_ancestor > 0) == (t.events_with_pi_plus_higgs_ancestor > 0),
        (s.events_with_pi_minus_higgs_ancestor > 0) == (t.events_with_pi_minus_higgs_ancestor > 0),
    ensures
        survey_recommendation(s) == survey_recommendation(t),
{
}

} // verus!
