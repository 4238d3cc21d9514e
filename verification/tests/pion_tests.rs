use nano_rust::tally::NamedCounts;
use nano_rust::pion_truth_diagnosis::{
    breakdown_pools, classify_candidate, is_charged_hadron, is_charged_stable_like, is_known_charged, match_pool,
    pdg_charge_sign, pool_breakdown, recommendation_from_counts, count_categories, count_pool_breakdown, same_charge, BreakdownInputs,
};

#[test]
fn charged_lepton_charge_sign_follows_pdg_convention() {
    assert_eq!(pdg_charge_sign(-11), Some(1));
    assert_eq!(pdg_charge_sign(11), Some(-1));
    assert!(same_charge(1, -13));
    assert!(!same_charge(1, 13));
}

#[test]
fn hadron_charges_and_unknown_codes() {
    assert_eq!(pdg_charge_sign(211), Some(1));
    assert_eq!(pdg_charge_sign(-321), Some(-1));
    assert_eq!(pdg_charge_sign(2212), Some(1));
    assert_eq!(pdg_charge_sign(22), None);
    assert_eq!(pdg_charge_sign(i32::MIN), None);
    assert!(same_charge(5, 211));
    assert!(same_charge(-3, -211));
    assert!(!same_charge(0, 211));
    assert!(!same_charge(1, 22));
    assert!(is_known_charged(-13) && !is_known_charged(15));
    assert!(is_charged_hadron(-2212) && !is_charged_hadron(11));
    assert!(is_charged_stable_like(11, 1, true));
    assert!(!is_charged_stable_like(11, 2, true));
    assert!(!is_charged_stable_like(11, 1, false));
}

#[test]
fn pools_by_leg_charge() {
    assert!(match_pool(0, 1, 211, 1, true));
    assert!(!match_pool(0, -1, 211, 1, true));
    assert!(match_pool(1, -1, 211, 1, true));
    assert!(match_pool(2, 1, 321, 2, false));
    assert!(!match_pool(2, 1, -13, 1, true));
    assert!(match_pool(3, 1, -13, 1, true));
    assert!(!match_pool(3, 1, -13, 1, false));
    assert!(match_pool(4, -1, 13, 7, false));
    assert!(!match_pool(5, 1, 211, 1, true));
}

#[test]
fn candidate_categories() {
    assert_eq!(classify_candidate(true, true, true, true, true), vec![
        "both_reco_pions_match_gen_pions_dr0p1".to_string(),
        "both_match_any_charged_hadron_dr0p1".to_string(),
        "both_match_any_charged_stable_like_dr0p1".to_string(),
    ]);
    assert_eq!(classify_candidate(true, false, false, true, false), vec![
        "no_gen_pion_match_dr0p1".to_string(),
        "both_match_any_charged_hadron_dr0p1".to_string(),
        "photon_matched_but_no_pion_match".to_string(),
    ]);
    assert_eq!(classify_candidate(false, false, true, false, false), vec!["only_minus_matches_gen_pion_dr0p1".to_string()]);
    assert_eq!(classify_candidate(false, true, false, false, false), vec!["only_plus_matches_gen_pion_dr0p1".to_string()]);
}

#[test]
fn recommendation_thresholds() {
    assert_eq!(
        recommendation_from_counts(100, 5, 5, 9, 50),
        "Use photon truth only until PackedGenPart or tracking truth can provide charged-pion truth."
    );
    assert_eq!(
        recommendation_from_counts(10, 1, 6, 1, 1),
        "Charged-hadron matching works better than pion-only matching; treat rho as a charged-candidate mass hypothesis."
    );
    assert_eq!(
        recommendation_from_counts(0, 0, 0, 0, 0),
        "Use photon truth only until PackedGenPart or tracking truth can provide charged-pion truth."
    );
    assert_eq!(
        recommendation_from_counts(1, 0, 0, 1, 1),
        "GenPart charged particles are far from accepted reco pions; survey PackedGenPart or tracking truth next."
    );
    assert_eq!(
        recommendation_from_counts(1, 1, 5, 1, 1),
        "GenPart pions exist but matching is sparse; use this as a diagnostic only before any cut study."
    );
}

fn inputs(pdg_id: i32, status: i32, finite: bool, pts: [bool; 3], eta: bool) -> BreakdownInputs {
    BreakdownInputs {
        pdg_id,
        status,
        finite,
        pt_above_0p1: pts[0],
        pt_above_0p5: pts[1],
        pt_above_1p0: pts[2],
        eta_within_2p5: eta,
    }
}

#[test]
fn breakdown_pools_of_particles() {
    assert_eq!(
        breakdown_pools(inputs(211, 1, true, [true, true, true], true)),
        vec![
            "all_pi_plus",
            "finite_pi_plus",
            "status1_pi_plus",
            "status1_finite_pi_plus",
            "pt_gt_0p1_pi_plus",
            "pt_gt_0p5_pi_plus",
            "pt_gt_1p0_pi_plus",
            "eta_lt_2p5_pi_plus",
            "charged_pions",
            "any_charged_hadron",
            "any_charged_stable_like",
        ]
    );
    assert_eq!(
        breakdown_pools(inputs(-211, 2, false, [true, false, false], false)),
        vec!["all_pi_minus", "pt_gt_0p1_pi_minus", "charged_pions", "any_charged_hadron"]
    );
    assert_eq!(
        breakdown_pools(inputs(-321, 1, true, [false; 3], false)),
        vec!["charged_kaons", "any_charged_hadron", "any_charged_stable_like"]
    );
    assert_eq!(breakdown_pools(inputs(13, 1, true, [false; 3], false)), vec!["charged_leptons", "any_charged_stable_like"]);
    assert_eq!(breakdown_pools(inputs(2212, 3, true, [false; 3], false)), vec!["protons", "any_charged_hadron"]);
    assert!(breakdown_pools(inputs(22, 1, true, [true; 3], true)).is_empty());
}

#[test]
fn antiparticles_carry_the_opposite_charge() {
    for code in [11, 13, 211, 321, 2212, 22, 0, 5] {
        assert_eq!(pdg_charge_sign(-code), pdg_charge_sign(code).map(|c| -c));
    }
}

#[test]
fn pool_breakdown_counts_particles_per_pool_in_first_seen_order() {
    let particles = [
        inputs(-211, 2, false, [true, false, false], false),
        inputs(22, 1, true, [true; 3], true),
        inputs(-321, 1, true, [false; 3], false),
        inputs(-211, 1, true, [false; 3], true),
    ];
    assert_eq!(
        pool_breakdown(&particles),
        vec![
            ("all_pi_minus", 2),
            ("pt_gt_0p1_pi_minus", 1),
            ("charged_pions", 2),
            ("any_charged_hadron", 3),
            ("charged_kaons", 1),
            ("any_charged_stable_like", 2),
            ("finite_pi_minus", 1),
            ("status1_pi_minus", 1),
            ("status1_finite_pi_minus", 1),
            ("eta_lt_2p5_pi_minus", 1),
        ]
    );
    assert!(pool_breakdown(&[]).is_empty());
    assert!(pool_breakdown(&[inputs(22, 1, true, [true; 3], true)]).is_empty());
}

fn table(counts: &NamedCounts) -> Vec<(String, u64)> {
    counts.entries().clone()
}

#[test]
fn named_counts_add_to_each_name_once() {
    let mut counts = NamedCounts::new();
    assert!(counts.entries().is_empty());
    counts.add("b", 2);
    counts.add("a", 0);
    counts.add("b", 3);
    assert_eq!(table(&counts), vec![("b".to_string(), 5), ("a".to_string(), 0)]);
}

#[test]
fn pool_tables_gain_particles_and_events() {
    let mut particles = NamedCounts::new();
    let mut events = NamedCounts::new();
    particles.add("all_pi_minus", 4);
    events.add("all_pi_minus", 3);
    events.add("protons", 1);
    let event = [
        inputs(-211, 2, false, [true, false, false], false),
        inputs(-211, 2, false, [false; 3], false),
        inputs(22, 1, true, [true; 3], true),
    ];
    count_pool_breakdown(&mut particles, &mut events, &event);
    assert_eq!(
        table(&particles),
        vec![
            ("all_pi_minus".to_string(), 6),
            ("pt_gt_0p1_pi_minus".to_string(), 1),
            ("charged_pions".to_string(), 2),
            ("any_charged_hadron".to_string(), 2),
        ]
    );
    assert_eq!(
        table(&events),
        vec![
            ("all_pi_minus".to_string(), 4),
            ("protons".to_string(), 1),
            ("pt_gt_0p1_pi_minus".to_string(), 1),
            ("charged_pions".to_string(), 1),
            ("any_charged_hadron".to_string(), 1),
        ]
    );
}

#[test]
fn category_table_counts_each_category() {
    let mut counts = NamedCounts::new();
    counts.add("no_gen_pion_match_dr0p1", 1);
    let categories = classify_candidate(true, false, false, false, false);
    count_categories(&mut counts, &categories);
    count_categories(&mut counts, &vec!["x".to_string(), "x".to_string()]);
    assert_eq!(
        table(&counts),
        vec![
            ("no_gen_pion_match_dr0p1".to_string(), 2),
            ("photon_matched_but_no_pion_match".to_string(), 1),
            ("x".to_string(), 2),
        ]
    );
}
