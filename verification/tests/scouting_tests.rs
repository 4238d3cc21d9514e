use nano_rust::genealogy::{ancestor_has_pdg, descent_walk_ends, is_descendant_of, GenPartIds};
use nano_rust::scouting_hrhogamma::{
    first_match_search_ends, has_gen_ancestor, identify_truth_chain, mapping_from_catalogue,
    truth_chain_search_ends, CatalogueObject,
    HToRhoGammaBranchMapping, HgammaClosureCounters, HgammaClosureEventFlags, TruthStrategy,
    TruthTopology,
};

fn gen(pdg_id: i32, mother: Option<usize>) -> GenPartIds {
    GenPartIds { pdg_id, mother, status: 0, status_flags: 0 }
}

#[test]
fn finds_explicit_h_to_rho_gamma_truth_chain() {
    let truth = identify_truth_chain(&[
        gen(25, None),
        gen(22, Some(0)),
        gen(113, Some(0)),
        gen(211, Some(2)),
        gen(-211, Some(2)),
    ]);
    assert_eq!(truth.topology, TruthTopology::ExplicitRho);
    assert!(truth.rho.is_some());
    assert!(truth.pi_plus.is_some());
    assert!(truth.pi_minus.is_some());
    assert_eq!(truth.h, Some(0));
    assert_eq!(truth.photon, Some(1));
    assert_eq!(truth.rho, Some(2));
    assert_eq!(truth.pi_plus, Some(3));
    assert_eq!(truth.pi_minus, Some(4));
}

#[test]
fn finds_fallback_truth_chain_without_explicit_rho() {
    let truth = identify_truth_chain(&[gen(25, None), gen(22, Some(0)), gen(211, Some(0)), gen(-211, Some(0))]);
    assert_eq!(truth.topology, TruthTopology::FallbackNoExplicitRho);
    assert!(truth.rho.is_none());
    assert_eq!(truth.pi_plus, Some(2));
    assert_eq!(truth.pi_minus, Some(3));
}

#[test]
fn missing_truth_chain_returns_not_found() {
    let truth = identify_truth_chain(&[gen(25, None), gen(22, Some(0))]);
    assert_eq!(truth.topology, TruthTopology::NotFound);
    assert_eq!(truth.h, Some(0));
    assert!(truth.photon.is_none());
}

#[test]
fn no_higgs_means_no_chain() {
    let truth = identify_truth_chain(&[gen(22, None), gen(211, Some(0))]);
    assert_eq!(truth.topology, TruthTopology::NotFound);
    assert!(truth.h.is_none());
}

#[test]
fn rho_without_pions_falls_back_to_higgs_pions() {
    let truth = identify_truth_chain(&[
        gen(25, None),
        gen(113, Some(0)),
        gen(22, Some(0)),
        gen(211, Some(0)),
        gen(-211, Some(0)),
    ]);
    assert_eq!(truth.topology, TruthTopology::FallbackNoExplicitRho);
    assert_eq!(truth.photon, Some(2));
}

#[test]
fn ancestry_follows_chains_and_survives_cycles() {
    let ps = [gen(25, None), gen(113, Some(0)), gen(211, Some(1)), gen(1, Some(4)), gen(2, Some(3)), gen(3, Some(9))];
    assert!(has_gen_ancestor(&ps, 2, 25));
    assert!(has_gen_ancestor(&ps, 2, 113));
    assert!(!has_gen_ancestor(&ps, 2, 211));
    assert!(!has_gen_ancestor(&ps, 0, 25));
    assert!(!has_gen_ancestor(&ps, 3, 25));
    assert!(has_gen_ancestor(&ps, 3, 2));
    assert!(has_gen_ancestor(&ps, 3, 1));
    assert!(!has_gen_ancestor(&ps, 5, 3));
    assert!(!has_gen_ancestor(&ps, 42, 25));
    assert_eq!(ancestor_has_pdg(&ps, 2, 25), has_gen_ancestor(&ps, 2, 25));
    assert!(is_descendant_of(&ps, 2, 0));
    assert!(is_descendant_of(&ps, 3, 3));
    assert!(!is_descendant_of(&ps, 0, 2));
}

#[test]
fn descent_walks_that_cycle_without_the_ancestor_never_end() {
    let ps = [gen(25, None), gen(113, Some(0)), gen(211, Some(1)), gen(1, Some(4)), gen(2, Some(3)), gen(3, Some(9))];
    assert!(descent_walk_ends(&ps, 2, 0));
    assert!(descent_walk_ends(&ps, 2, 5));
    assert!(descent_walk_ends(&ps, 3, 3));
    assert!(descent_walk_ends(&ps, 3, 4));
    assert!(!descent_walk_ends(&ps, 3, 0));
    assert!(!descent_walk_ends(&ps, 4, 5));
    assert!(descent_walk_ends(&ps, 5, 0));
    assert!(descent_walk_ends(&ps, 42, 0));
    assert!(first_match_search_ends(&ps, 1, None));
    assert!(!first_match_search_ends(&ps, 1, Some(0)));
    assert!(first_match_search_ends(&ps, 1, Some(4)));
    assert!(first_match_search_ends(&ps, 211, Some(0)));
}

#[test]
fn truth_chain_search_stops_at_the_first_match() {
    let cyclic_photon = [gen(25, None), gen(22, Some(2)), gen(22, Some(1))];
    assert!(!truth_chain_search_ends(&cyclic_photon));
    let found_before_cycle = [gen(25, None), gen(22, Some(0)), gen(22, Some(3)), gen(1, Some(2))];
    assert!(truth_chain_search_ends(&found_before_cycle));
    let truth = identify_truth_chain(&found_before_cycle);
    assert_eq!(truth.topology, TruthTopology::NotFound);
    assert_eq!(truth.h, Some(0));
    let cyclic_pion = [gen(25, None), gen(22, Some(0)), gen(211, Some(3)), gen(1, Some(2))];
    assert!(!truth_chain_search_ends(&cyclic_pion));
    assert!(truth_chain_search_ends(&[gen(22, Some(1)), gen(22, Some(0))]));
}

#[test]
fn truth_strategy_and_topology_codes() {
    assert_eq!(TruthStrategy::NoTruth.as_str(), "none");
    assert_eq!(TruthStrategy::NoTruth.code(), 0);
    assert_eq!(TruthStrategy::ExplicitChain.as_str(), "explicit_chain");
    assert_eq!(TruthStrategy::ExplicitChain.code(), 1);
    assert_eq!(TruthStrategy::TopologyProxy.as_str(), "topology_proxy");
    assert_eq!(TruthStrategy::TopologyProxy.code(), 2);
    assert_eq!(TruthStrategy::HgammaClosure.as_str(), "hgamma_closure");
    assert_eq!(TruthStrategy::HgammaClosure.code(), 3);
    assert_eq!(TruthTopology::NotAvailable.as_str(), "not_available");
    assert_eq!(TruthTopology::NotAvailable.code(), 0);
    assert_eq!(TruthTopology::ExplicitRho.as_str(), "explicit_rho");
    assert_eq!(TruthTopology::ExplicitRho.code(), 1);
    assert_eq!(TruthTopology::FallbackNoExplicitRho.as_str(), "fallback_no_explicit_rho");
    assert_eq!(TruthTopology::FallbackNoExplicitRho.code(), 2);
    assert_eq!(TruthTopology::NotFound.as_str(), "not_found");
    assert_eq!(TruthTopology::NotFound.code(), 3);
}

#[test]
fn hgamma_event_counters_update_from_event_state() {
    let mut counters = HgammaClosureCounters::default();
    counters.observe(HgammaClosureEventFlags {
        has_gen_h: true,
        has_gen_hgamma: true,
        has_reco_photon_preselection: true,
        photon_matched_dr_0p1: true,
        photon_matched_dr_0p2: true,
        has_os_track_pair: true,
        has_accepted_candidate: true,
        higgs_closed_mass_10: false,
        higgs_closed_mass_15: true,
        higgs_closed_mass_20: true,
    });
    counters.observe(HgammaClosureEventFlags {
        has_gen_h: true,
        has_gen_hgamma: false,
        has_reco_photon_preselection: false,
        photon_matched_dr_0p1: false,
        photon_matched_dr_0p2: false,
        has_os_track_pair: false,
        has_accepted_candidate: false,
        higgs_closed_mass_10: false,
        higgs_closed_mass_15: false,
        higgs_closed_mass_20: false,
    });

    assert_eq!(counters.events_total, 2);
    assert_eq!(counters.events_with_gen_h, 2);
    assert_eq!(counters.events_with_gen_hgamma, 1);
    assert_eq!(counters.events_with_reco_photon_preselection, 1);
    assert_eq!(counters.events_with_reco_photon_matched_dr_0p1, 1);
    assert_eq!(counters.events_with_reco_photon_matched_dr_0p2, 1);
    assert_eq!(counters.events_with_reco_photon_matched_dr_0p1_and_any_os_track_pair, 1);
    assert_eq!(counters.events_with_reco_photon_matched_dr_0p1_and_accepted_candidate, 1);
    assert_eq!(counters.events_with_reco_photon_matched_dr_0p1_and_higgs_closed_mass_10, 0);
    assert_eq!(counters.events_with_reco_photon_matched_dr_0p1_and_higgs_closed_mass_15, 1);
    assert_eq!(counters.events_with_reco_photon_matched_dr_0p1_and_higgs_closed_mass_20, 1);
}

#[test]
fn and_counters_need_the_matched_photon() {
    let mut counters = HgammaClosureCounters::default();
    counters.observe(HgammaClosureEventFlags {
        has_gen_h: false,
        has_gen_hgamma: false,
        has_reco_photon_preselection: false,
        photon_matched_dr_0p1: false,
        photon_matched_dr_0p2: true,
        has_os_track_pair: true,
        has_accepted_candidate: true,
        higgs_closed_mass_10: true,
        higgs_closed_mass_15: true,
        higgs_closed_mass_20: true,
    });
    assert_eq!(counters.events_total, 1);
    assert_eq!(counters.events_with_reco_photon_matched_dr_0p2, 1);
    assert_eq!(counters.events_with_reco_photon_matched_dr_0p1_and_any_os_track_pair, 0);
    assert_eq!(counters.events_with_reco_photon_matched_dr_0p1_and_higgs_closed_mass_10, 0);
}

fn object(name: &str, count: &str, fields: &[(&str, &str)]) -> CatalogueObject {
    CatalogueObject {
        name: name.to_string(),
        count: count.to_string(),
        fields: fields.iter().map(|(k, v)| (k.to_string(), v.to_string())).collect(),
    }
}

fn run3_catalogue() -> Vec<CatalogueObject> {
    vec![
        object("ScoutingPhoton", "nPhoton", &[("pt", "Photon_pt"), ("eta", "Photon_eta"), ("phi", "Photon_phi")]),
        object(
            "ScoutingChargedCandidate",
            "nPFCand",
            &[
                ("pt", "PFCand_pt"),
                ("eta", "PFCand_eta"),
                ("phi", "PFCand_phi"),
                ("pdgId", "PFCand_pdgId"),
                ("mass", "PFCand_mass"),
            ],
        ),
    ]
}

#[test]
fn maps_catalogue_objects_to_branches() {
    let mapping = mapping_from_catalogue("ScoutingPhoton", "ScoutingChargedCandidate", &run3_catalogue()).unwrap();
    assert_eq!(mapping.photon.semantic_name, "ScoutingPhoton");
    assert_eq!(mapping.photon.count, "nPhoton");
    assert_eq!(mapping.charged_candidate.semantic_name, "ScoutingChargedCandidate");
    assert_eq!(mapping.charged_candidate.pdg_id, "PFCand_pdgId");
    assert_eq!(mapping, HToRhoGammaBranchMapping::zcountinghlt_naive());
}

#[test]
fn missing_catalogue_object_fails() {
    let err = mapping_from_catalogue("MissingPhoton", "ScoutingChargedCandidate", &run3_catalogue())
        .expect_err("should fail");
    assert!(err.contains("missing photon object: MissingPhoton"));
}

#[test]
fn catalogue_problems_are_reported_in_order() {
    let err = mapping_from_catalogue("ScoutingPhoton", "Nope", &run3_catalogue()).unwrap_err();
    assert_eq!(err, "missing charged_candidate object: Nope");
    let cat = vec![
        object("P", "n", &[("pt", "a"), ("phi", "c")]),
        object("C", "m", &[("pt", "a"), ("eta", "b"), ("phi", "c")]),
    ];
    assert_eq!(mapping_from_catalogue("P", "C", &cat).unwrap_err(), "missing eta");
    let cat = vec![
        object("P", "n", &[("pt", "a"), ("eta", "b"), ("phi", "c")]),
        object("C", "m", &[("pt", "a"), ("eta", "b"), ("phi", "c")]),
    ];
    assert_eq!(mapping_from_catalogue("P", "C", &cat).unwrap_err(), "missing pdgId");
    let cat = vec![
        object("P", "n", &[("pt", "a"), ("eta", "b"), ("phi", "c")]),
        object("C", "m", &[("pt", "a"), ("eta", "b"), ("phi", "c"), ("pdgId", "d")]),
    ];
    let mapping = mapping_from_catalogue("P", "C", &cat).unwrap();
    assert!(mapping.charged_candidate.mass.is_none());
}
