use std::collections::BTreeMap;

use nano_rust::genealogy::GenPartIds;
use nano_rust::genpart_survey::{
    example_indices, has_ancestor_pdg_id, is_interest_pdg, particle_of_interest, recommendation, survey_event, survey_events,
    GenPartSurvey, InterestingExamples, SurveyedEvent, INTEREST_PDGS, KEY_PDGS,
};
use nano_rust::survey_report::{
    map_i32, map_pair_i32, map_pair_i32_u16, map_triple, text_summary, top_counts, write_count_table,
    write_flags_table, write_relation_table, write_status_flags_table, write_status_table, JsonSurveySummary,
};

fn p(pdg_id: i32, mother: Option<usize>, status: i32, status_flags: u16) -> GenPartIds {
    GenPartIds { pdg_id, mother, status, status_flags }
}

fn signal_event() -> Vec<GenPartIds> {
    vec![
        p(25, None, 22, 0),
        p(22, Some(0), 1, 5),
        p(113, Some(0), 2, 0),
        p(211, Some(2), 1, 0),
        p(-211, Some(2), 1, 0),
    ]
}

#[test]
fn survey_event_reads_explicit_chain() {
    let s = survey_event(&signal_event());
    assert_eq!(s.n_genpart, 5);
    assert!(s.contains_higgs && s.contains_rho0 && s.contains_photon);
    assert!(s.contains_pi_plus_pi_minus && s.contains_h_gamma_pions);
    assert!(s.explicit_h_to_rho_gamma && s.explicit_rho_to_pions);
    assert!(s.any_photon_with_higgs_ancestor);
    assert!(s.any_pi_plus_with_higgs_ancestor && s.any_pi_minus_with_higgs_ancestor);
    assert!(s.any_pi_plus_with_rho_ancestor && s.any_pi_minus_with_rho_ancestor);
    assert!(s.any_rho_with_higgs_ancestor);
    assert_eq!(s.signed_pdg_counts.get(&211), Some(&1));
    assert_eq!(s.abs_pdg_counts.get(&211), Some(&2));
    assert_eq!(s.abs_pdg_counts.get(&-211), None);
    assert_eq!(s.status_counts.get(&(25, 22)), Some(&1));
    assert_eq!(s.status_flags_counts.get(&(22, 5)), Some(&1));
    assert_eq!(s.status_status_flags_counts.get(&(22, 1, 5)), Some(&1));
    assert_eq!(s.mother_daughter_counts.get(&(0, 25)), Some(&1));
    assert_eq!(s.mother_daughter_counts.get(&(113, -211)), Some(&1));
    assert_eq!(s.mother_daughter_counts.len(), 5);
}

#[test]
fn survey_event_without_explicit_decays() {
    let ps = vec![p(25, None, 22, 0), p(22, Some(0), 1, 0), p(211, Some(7), 1, 0), p(-211, None, 1, 0)];
    let s = survey_event(&ps);
    assert!(s.contains_h_gamma_pions);
    assert!(!s.contains_rho0);
    assert!(!s.explicit_h_to_rho_gamma && !s.explicit_rho_to_pions);
    assert!(s.any_photon_with_higgs_ancestor);
    assert!(!s.any_pi_plus_with_higgs_ancestor && !s.any_pi_minus_with_higgs_ancestor);
    assert_eq!(s.mother_daughter_counts.get(&(0, 211)), Some(&1));
    assert_eq!(s.mother_daughter_counts.get(&(0, -211)), Some(&1));
    let empty = survey_event(&[]);
    assert_eq!(empty.n_genpart, 0);
    assert!(!empty.contains_higgs);
    assert!(empty.signed_pdg_counts.is_empty());
}

#[test]
fn survey_events_counts_and_keeps_examples() {
    let events = vec![
        ("a".to_string(), signal_event()),
        ("b".to_string(), vec![p(22, None, 1, 0)]),
        ("c".to_string(), vec![]),
    ];
    let survey = survey_events(events.clone(), 0);
    assert_eq!(survey.processed_events, 3);
    assert_eq!(survey.events_with_genpart, 2);
    assert_eq!(survey.events_with_higgs, 1);
    assert_eq!(survey.events_with_photon, 2);
    assert_eq!(survey.events_with_explicit_h_to_rho_gamma, 1);
    assert_eq!(survey.signed_pdg_counts.get(&22), Some(&2));
    assert_eq!(survey.abs_pdg_counts.get(&211), Some(&2));
    assert_eq!(survey.events.len(), 1);
    assert_eq!(survey.events[0].event_id, "a");
    assert_eq!(survey.events[0].particles, signal_event());
    let wide = survey_events(events, 1);
    assert_eq!(wide.events.len(), 3);
    assert_eq!(wide.events[2].event_id, "c");
    assert_eq!(wide.events[1].summary.n_genpart, 1);
}

#[test]
fn survey_of_concatenation_is_the_sum() {
    let a = vec![("a".to_string(), signal_event())];
    let b = vec![("b".to_string(), vec![p(22, None, 1, 0), p(211, Some(0), 1, 3)])];
    let sa = survey_events(a.clone(), 1);
    let sb = survey_events(b.clone(), 1);
    let mut both = a.clone();
    both.extend(b.clone());
    let s = survey_events(both, 1);
    assert_eq!(s.processed_events, sa.processed_events + sb.processed_events);
    assert_eq!(s.events_with_photon, sa.events_with_photon + sb.events_with_photon);
    assert_eq!(s.signed_pdg_counts.get(&22), Some(&2));
    assert_eq!(s.signed_pdg_counts.get(&211), Some(&2));
    assert_eq!(s.mother_daughter_counts.get(&(22, 211)), Some(&1));
}

#[test]
fn recommendation_texts() {
    let mut s = survey_events(vec![], 0);
    assert_eq!(
        recommendation(&s),
        "ancestry unreliable; use nearest final-state photon/pi+pi- matching in signal MC, plus generator-level invariant-mass checks"
    );
    s.events_with_photon_higgs_ancestor = 1;
    s.events_with_pi_plus_higgs_ancestor = 1;
    s.events_with_pi_minus_higgs_ancestor = 1;
    assert_eq!(
        recommendation(&s),
        "rho0 absent or incomplete; match final-state photon and charged pions from Higgs ancestry"
    );
    s.events_with_explicit_h_to_rho_gamma = 2;
    s.events_with_explicit_rho_to_pions = 1;
    assert_eq!(recommendation(&s), "explicit rho0 exists; use last-copy rho0 and descendants");
}

#[test]
fn text_summary_of_one_signal_event() {
    let survey = survey_events(vec![("e".to_string(), signal_event())], 1);
    let mut expected = String::from("GenPart topology survey\n");
    for name in [
        "processed_events",
        "events_with_genpart",
        "events_with_higgs",
        "events_with_rho0",
        "events_with_photon",
        "events_with_pi_plus_pi_minus",
        "events_with_h_gamma_pions",
        "events_with_explicit_h_to_rho_gamma",
        "events_with_explicit_rho_to_pions",
        "events_with_photon_higgs_ancestor",
        "events_with_pi_plus_higgs_ancestor",
        "events_with_pi_minus_higgs_ancestor",
        "events_with_pi_plus_rho_ancestor",
        "events_with_pi_minus_rho_ancestor",
        "events_with_rho_higgs_ancestor",
    ] {
        expected.push_str(&format!("{name}: 1\n"));
    }
    expected.push_str("recommendation: explicit rho0 exists; use last-copy rho0 and descendants\n");
    expected.push_str("key signed pdgId counts:\n  25: 1\n  22: 1\n  113: 1\n  211: 1\n  -211: 1\n  111: 0\n  221: 0\n  223: 0\n  213: 0\n  -213: 0\n");
    expected.push_str("key abs pdgId counts:\n  25: 1\n  22: 1\n  113: 1\n  211: 2\n  -211: 0\n  111: 0\n  221: 0\n  223: 0\n  213: 0\n  -213: 0\n");
    expected.push_str("top abs pdgId counts:\n  211: 2\n  22: 1\n  25: 1\n  113: 1\n");
    expected.push_str("mother -> daughter counts:\n  0->25: 1\n  25->22: 1\n  25->113: 1\n  113->-211: 1\n  113->211: 1\n");
    expected.push_str("status counts:\n  -211:1: 1\n  22:1: 1\n  25:22: 1\n  113:2: 1\n  211:1: 1\n");
    expected.push_str("statusFlags counts:\n  -211:0: 1\n  22:5: 1\n  25:0: 1\n  113:0: 1\n  211:0: 1\n");
    expected.push_str("status + statusFlags counts:\n  -211:1:0: 1\n  22:1:5: 1\n  25:22:0: 1\n  113:2:0: 1\n  211:1:0: 1\n");
    assert_eq!(text_summary(&survey), expected);
}

#[test]
fn tables_keep_only_codes_of_interest() {
    let mut rel = BTreeMap::new();
    rel.insert((1, 2), 4u64);
    rel.insert((21, 22), 3u64);
    rel.insert((25, 5), 2u64);
    let mut out = String::new();
    write_relation_table(&mut out, "rel", &rel);
    assert_eq!(out, "rel:\n  21->22: 3\n  25->5: 2\n");

    let mut st = BTreeMap::new();
    st.insert((111, 2), 9u64);
    st.insert((211, -1), 1u64);
    let mut out = String::new();
    write_status_table(&mut out, "st", &st);
    assert_eq!(out, "st:\n  211:-1: 1\n");

    let mut fl = BTreeMap::new();
    fl.insert((22, 65535u16), 7u64);
    fl.insert((11, 1u16), 7u64);
    let mut out = String::new();
    write_flags_table(&mut out, "fl", &fl);
    assert_eq!(out, "fl:\n  22:65535: 7\n");

    let mut sf = BTreeMap::new();
    sf.insert((-211, 1, 3u16), 2u64);
    let mut out = String::from("x");
    write_status_flags_table(&mut out, "sf", &sf);
    assert_eq!(out, "xsf:\n  -211:1:3: 2\n");

    let mut counts = BTreeMap::new();
    counts.insert(-213, 5u64);
    let mut out = String::new();
    write_count_table(&mut out, "k", &counts, KEY_PDGS);
    assert_eq!(out, "k:\n  25: 0\n  22: 0\n  113: 0\n  211: 0\n  -211: 0\n  111: 0\n  221: 0\n  223: 0\n  213: 0\n  -213: 5\n");
}

#[test]
fn top_counts_ranks_by_count_then_code() {
    let mut counts = BTreeMap::new();
    counts.insert(5, 1u64);
    counts.insert(-3, 7u64);
    counts.insert(2, 7u64);
    counts.insert(9, 3u64);
    assert_eq!(top_counts(&counts, 20), vec![(-3, 7), (2, 7), (9, 3), (5, 1)]);
    assert_eq!(top_counts(&counts, 2), vec![(-3, 7), (2, 7)]);
    assert_eq!(top_counts(&counts, 0), vec![]);
    assert_eq!(top_counts(&BTreeMap::new(), 3), vec![]);
}

#[test]
fn json_summary_keys_are_text() {
    let survey = survey_events(vec![("e".to_string(), signal_event())], 1);
    let j = JsonSurveySummary::from_survey(&survey);
    assert_eq!(j.processed_events, 1);
    assert_eq!(j.events_with_rho_higgs_ancestor, 1);
    assert_eq!(j.recommendation, "explicit rho0 exists; use last-copy rho0 and descendants");
    assert_eq!(
        j.abs_pdg_counts,
        vec![("22".to_string(), 1), ("25".to_string(), 1), ("113".to_string(), 1), ("211".to_string(), 2)]
    );
    assert_eq!(j.mother_daughter_counts[0], ("0->25".to_string(), 1));
    assert_eq!(j.status_counts[0], ("-211:1".to_string(), 1));
    assert_eq!(j.status_flags_counts[1], ("22:5".to_string(), 1));
    assert_eq!(j.status_status_flags_counts[2], ("25:22:0".to_string(), 1));

    let mut m = BTreeMap::new();
    m.insert(-7, 2u64);
    assert_eq!(map_i32(&m), vec![("-7".to_string(), 2)]);
    let mut m = BTreeMap::new();
    m.insert((1, -2), 3u64);
    assert_eq!(map_pair_i32(&m, "->"), vec![("1->-2".to_string(), 3)]);
    let mut m = BTreeMap::new();
    m.insert((1, 2u16), 3u64);
    assert_eq!(map_pair_i32_u16(&m, ":"), vec![("1:2".to_string(), 3)]);
    let mut m = BTreeMap::new();
    m.insert((1, 2, 3u16), 4u64);
    assert_eq!(map_triple(&m), vec![("1:2:3".to_string(), 4)]);
}

fn kept(id: &str, particles: Vec<GenPartIds>) -> SurveyedEvent {
    SurveyedEvent { event_id: id.to_string(), summary: survey_event(&particles), particles }
}

#[test]
fn examples_take_the_first_of_each_kind() {
    let events = vec![
        kept("h1", signal_event()),
        kept("gpp", vec![p(22, None, 1, 0), p(211, None, 1, 0), p(-211, None, 1, 0)]),
        kept("h2", vec![p(25, None, 1, 0)]),
        kept("none", vec![]),
    ];
    let x = InterestingExamples::from_events(&events, 1);
    assert_eq!(x.with_higgs.len(), 1);
    assert_eq!(x.with_higgs[0].event_id, "h1");
    assert_eq!(x.with_rho0.len(), 1);
    assert_eq!(x.with_gamma_pions_no_rho[0].event_id, "gpp");
    assert_eq!(x.current_truth_not_found.len(), 1);
    assert_eq!(x.current_truth_not_found[0].event_id, "gpp");
    let all = InterestingExamples::from_events(&events, 10);
    assert_eq!(all.with_higgs.len(), 2);
    assert_eq!(all.current_truth_not_found.len(), 3);
    assert_eq!(all.current_truth_not_found[2].event_id, "none");
    let nothing = InterestingExamples::from_events(&events, 0);
    assert!(nothing.with_higgs.is_empty());
}

#[test]
fn particles_of_interest_and_ancestry() {
    let event = kept("e", vec![p(25, None, 1, 0), p(5, Some(0), 1, 0), p(5, Some(1), 1, 0), p(5, Some(9), 1, 0)]);
    assert!(particle_of_interest(&event, 0));
    assert!(particle_of_interest(&event, 1));
    assert!(!particle_of_interest(&event, 2));
    assert!(!particle_of_interest(&event, 3));
    assert!(has_ancestor_pdg_id(&event.particles, 2, 25));
    assert!(!has_ancestor_pdg_id(&event.particles, 3, 25));
    for code in INTEREST_PDGS {
        assert!(is_interest_pdg(code));
    }
    assert!(!is_interest_pdg(111));
    let _ = GenPartSurvey::default();
}

#[test]
fn example_positions_match_the_copies() {
    let events = vec![
        kept("h1", signal_event()),
        kept("gpp", vec![p(22, None, 1, 0), p(211, None, 1, 0), p(-211, None, 1, 0)]),
        kept("h2", vec![p(25, None, 1, 0)]),
        kept("none", vec![]),
    ];
    assert_eq!(example_indices(&events, 0, 10), vec![0, 2]);
    assert_eq!(example_indices(&events, 1, 10), vec![0]);
    assert_eq!(example_indices(&events, 2, 10), vec![1]);
    assert_eq!(example_indices(&events, 3, 2), vec![1, 2]);
    assert_eq!(example_indices(&events, 3, 0), Vec::<usize>::new());
}

#[test]
fn survey_counters_are_ordered_and_abs_counts_fold_signs() {
    let events = vec![
        ("a".to_string(), signal_event()),
        ("b".to_string(), vec![p(25, None, 1, 0), p(-211, Some(0), 1, 0), p(-211, None, 1, 0)]),
        ("c".to_string(), vec![p(113, None, 2, 0), p(211, Some(0), 1, 0)]),
    ];
    let s = survey_events(events, 1);
    assert!(s.events_with_genpart <= s.processed_events);
    assert!(s.events_with_h_gamma_pions <= s.events_with_higgs);
    assert!(s.events_with_explicit_rho_to_pions <= s.events_with_rho0);
    assert!(s.events_with_pi_minus_higgs_ancestor <= s.events_with_higgs);
    assert_eq!(s.events_with_pi_minus_higgs_ancestor, 2);
    assert_eq!(s.events_with_pi_plus_rho_ancestor, 2);
    let signed = |k: i32| s.signed_pdg_counts.get(&k).copied().unwrap_or(0);
    let abs = |k: i32| s.abs_pdg_counts.get(&k).copied().unwrap_or(0);
    assert_eq!(abs(211), signed(211) + signed(-211));
    assert_eq!(abs(211), 5);
    assert_eq!(abs(-211), 0);
    assert_eq!(abs(25), signed(25) + signed(-25));
}

#[test]
fn examples_listing_rows_and_groups() {
    let survey = survey_events(
        vec![
            ("e1".to_string(), vec![p(25, None, 22, 0), p(22, Some(0), 1, 4), p(5, None, 1, 0), p(6, Some(2), 1, 0)]),
            ("e2".to_string(), vec![p(5, Some(3), 2, 1)]),
        ],
        1,
    );
    let kin = vec![
        vec!["a".to_string(), "b".to_string(), "c".to_string(), "d".to_string()],
        vec!["x".to_string()],
    ];
    let text = nano_rust::survey_report::examples_text(&survey, 5, &kin);
    let e1 = "event: e1\nindex pdgId status statusFlags mother_index mother_pdgId pt eta phi mass\n0 25 22 0 -1 0 a\n1 22 1 4 0 25 b\n";
    let e2 = "event: e2\nindex pdgId status statusFlags mother_index mother_pdgId pt eta phi mass\n";
    let expected = format!(
        "## event with pdgId 25\n{e1}## event with pdgId 113\nnone\n## event with 22 and pi+pi- but no rho0\nnone\n## event where simple truth finder would say not_found\n{e1}{e2}"
    );
    assert_eq!(text, expected);
}

fn summed_counts<K: Ord + Copy>(maps: &[&BTreeMap<K, u64>]) -> BTreeMap<K, u64> {
    let mut total = BTreeMap::new();
    for map in maps {
        for (key, count) in map.iter() {
            *total.entry(*key).or_insert(0) += *count;
        }
    }
    total
}

#[test]
fn survey_counts_are_sums_of_event_summaries() {
    let events = vec![
        signal_event(),
        vec![p(25, None, 22, 0), p(22, Some(0), 1, 0), p(211, Some(7), 1, 0), p(-211, None, 1, 0)],
        vec![],
        vec![p(22, None, 1, 3), p(22, None, 1, 3)],
    ];
    let summaries: Vec<_> = events.iter().map(|ps| survey_event(ps)).collect();
    let survey = survey_events(
        events.iter().enumerate().map(|(i, ps)| (format!("e{i}"), ps.clone())).collect(),
        1,
    );
    assert_eq!(survey.processed_events, 4);
    assert_eq!(survey.events_with_genpart, summaries.iter().filter(|s| s.n_genpart > 0).count() as u64);
    assert_eq!(survey.events_with_photon, summaries.iter().filter(|s| s.contains_photon).count() as u64);
    assert_eq!(survey.events_with_photon, 3);
    assert_eq!(
        survey.events_with_explicit_h_to_rho_gamma,
        summaries.iter().filter(|s| s.explicit_h_to_rho_gamma).count() as u64
    );
    let all = |f: fn(&nano_rust::genpart_survey::EventSurveySummary) -> &BTreeMap<i32, u64>| {
        summed_counts(&summaries.iter().map(f).collect::<Vec<_>>())
    };
    assert_eq!(survey.signed_pdg_counts, all(|s| &s.signed_pdg_counts));
    assert_eq!(survey.abs_pdg_counts, all(|s| &s.abs_pdg_counts));
    assert_eq!(survey.signed_pdg_counts.get(&22), Some(&4));
    assert_eq!(survey.abs_pdg_counts.get(&211), Some(&4));
    assert_eq!(
        survey.status_counts,
        summed_counts(&summaries.iter().map(|s| &s.status_counts).collect::<Vec<_>>())
    );
    assert_eq!(
        survey.status_flags_counts,
        summed_counts(&summaries.iter().map(|s| &s.status_flags_counts).collect::<Vec<_>>())
    );
    assert_eq!(
        survey.status_status_flags_counts,
        summed_counts(&summaries.iter().map(|s| &s.status_status_flags_counts).collect::<Vec<_>>())
    );
    assert_eq!(
        survey.mother_daughter_counts,
        summed_counts(&summaries.iter().map(|s| &s.mother_daughter_counts).collect::<Vec<_>>())
    );
}
