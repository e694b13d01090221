use std::collections::HashSet;

use frankensearch::interaction_lanes::{
    derive_query_seed, fixture_queries, lane_by_id, lane_catalog, lane_ids, lanes_at_risk,
    queries_for_lane, CalibratorChoice, CorpusSlice, ExpectedPhase, FeatureToggles, FixtureQuery,
    QueryClass, QuerySlice, RiskLevel,
};
#[test]
fn catalog_has_expected_lane_count() {
    let catalog = lane_catalog();
    assert_eq!(catalog.len(), 12);
}

#[test]
fn all_lane_ids_are_unique() {
    let ids = lane_ids();
    let mut dedup = ids.clone();
    dedup.sort_unstable();
    dedup.dedup();
    assert_eq!(ids.len(), dedup.len(), "duplicate lane IDs found");
}

#[test]
fn all_lane_seeds_are_unique() {
    let catalog = lane_catalog();
    let mut seeds: Vec<u64> = catalog.iter().map(|l| l.seed).collect();
    seeds.sort_unstable();
    seeds.dedup();
    assert_eq!(
        seeds.len(),
        catalog.len(),
        "duplicate seeds found — each lane needs a unique seed"
    );
}

#[test]
fn catalog_sorted_by_risk_descending() {
    let catalog = lane_catalog();
    for pair in catalog.windows(2) {
        assert!(
            pair[0].risk >= pair[1].risk,
            "lane {} (risk {:?}) should come before {} (risk {:?})",
            pair[0].id,
            pair[0].risk,
            pair[1].id,
            pair[1].risk,
        );
    }
}

#[test]
fn baseline_lane_has_default_toggles() {
    let baseline = lane_by_id("baseline").expect("baseline lane not found");
    assert_eq!(baseline.toggles.active_count(), 0);
    assert_eq!(baseline.risk, RiskLevel::Low);
    assert_eq!(baseline.expected_phase, ExpectedPhase::InitialThenRefined);
}

#[test]
fn kitchen_sink_has_all_features_active() {
    let ks = lane_by_id("kitchen_sink").expect("kitchen_sink lane not found");
    assert!(ks.toggles.explain);
    assert!(ks.toggles.mmr);
    assert!(ks.toggles.negation_queries);
    assert!(ks.toggles.prf);
    assert!(ks.toggles.adaptive_fusion);
    assert!(ks.toggles.conformal);
    assert!(ks.toggles.circuit_breaker);
    assert!(ks.toggles.feedback);
    assert_ne!(ks.toggles.calibration, CalibratorChoice::Identity);
}

#[test]
fn lane_by_id_returns_none_for_unknown() {
    assert!(lane_by_id("nonexistent_lane").is_none());
}

#[test]
fn high_risk_lanes_include_expected_compositions() {
    let high = lanes_at_risk(RiskLevel::High);
    let ids: Vec<&str> = high.iter().map(|l| l.id).collect();
    assert!(
        ids.contains(&"explain_mmr"),
        "explain_mmr missing from high-risk"
    );
    assert!(
        ids.contains(&"prf_negation"),
        "prf_negation missing from high-risk"
    );
    assert!(
        ids.contains(&"adaptive_calibration_conformal"),
        "adaptive_calibration_conformal missing from high-risk"
    );
    assert!(
        ids.contains(&"breaker_adaptive_feedback"),
        "breaker_adaptive_feedback missing from high-risk"
    );
    assert!(
        ids.contains(&"breaker_explain"),
        "breaker_explain missing from high-risk"
    );
    assert!(
        ids.contains(&"kitchen_sink"),
        "kitchen_sink missing from high-risk"
    );
}

#[test]
fn fixture_queries_cover_all_non_empty_classes() {
    let queries = fixture_queries();
    let classes: Vec<QueryClass> = queries.iter().map(|q| q.class).collect();
    assert!(classes.contains(&QueryClass::Identifier));
    assert!(classes.contains(&QueryClass::ShortKeyword));
    assert!(classes.contains(&QueryClass::NaturalLanguage));
    // Empty is intentionally excluded — no meaningful interaction tests for empty queries
    assert!(!classes.contains(&QueryClass::Empty));
}

#[test]
fn fixture_queries_have_negated_variants() {
    let queries = fixture_queries();
    let with_negation = queries
        .iter()
        .filter(|q| q.negated_variant.is_some())
        .count();
    assert!(
        with_negation >= 8,
        "expected at least 8 queries with negated variants, got {with_negation}"
    );
}

#[test]
fn queries_for_lane_filters_correctly() {
    let baseline = lane_by_id("baseline").unwrap();
    let filtered = queries_for_lane(&baseline);
    // Baseline includes all 3 classes, should get all queries
    assert!(filtered.len() >= 10);

    for q in &filtered {
        assert!(baseline.query_slice.classes.contains(&q.class));
    }
}

#[test]
fn query_for_lane_selects_negated_when_active() {
    let q = FixtureQuery {
        text: "rust error handling",
        class: QueryClass::ShortKeyword,
        negated_variant: Some("rust error handling -panic"),
    };
    assert_eq!(q.query_for_lane(false), "rust error handling");
    assert_eq!(q.query_for_lane(true), "rust error handling -panic");
}

#[test]
fn query_for_lane_falls_back_when_no_negation() {
    let q = FixtureQuery {
        text: "search index",
        class: QueryClass::ShortKeyword,
        negated_variant: None,
    };
    assert_eq!(q.query_for_lane(true), "search index");
    assert_eq!(q.query_for_lane(false), "search index");
}

#[test]
fn derive_query_seed_is_deterministic() {
    let s1 = derive_query_seed(0x_CAFE_0001, 0);
    let s2 = derive_query_seed(0x_CAFE_0001, 0);
    assert_eq!(s1, s2);
}

#[test]
fn derive_query_seed_differs_per_index() {
    let s0 = derive_query_seed(0x_CAFE_0001, 0);
    let s1 = derive_query_seed(0x_CAFE_0001, 1);
    let s2 = derive_query_seed(0x_CAFE_0001, 2);
    assert_ne!(s0, s1);
    assert_ne!(s1, s2);
    assert_ne!(s0, s2);
}

#[test]
fn derive_query_seed_differs_per_lane() {
    let a = derive_query_seed(0x_CAFE_0001, 5);
    let b = derive_query_seed(0x_CAFE_0002, 5);
    assert_ne!(a, b);
}

#[test]
fn corpus_slice_id_prefix_non_empty_for_clusters() {
    for slice in [
        CorpusSlice::Rust,
        CorpusSlice::Ml,
        CorpusSlice::Sysadmin,
        CorpusSlice::Cooking,
        CorpusSlice::Mixed,
    ] {
        assert!(!slice.id_prefix().is_empty(), "{slice:?} has empty prefix");
    }
    assert!(CorpusSlice::Full.id_prefix().is_empty());
}

#[test]
fn corpus_slice_counts_sum_correctly() {
    let cluster_count = [
        CorpusSlice::Rust,
        CorpusSlice::Ml,
        CorpusSlice::Sysadmin,
        CorpusSlice::Cooking,
        CorpusSlice::Mixed,
    ]
    .iter()
    .map(|s| s.approx_count())
    .sum::<usize>();
    assert_eq!(cluster_count, 100, "5 clusters x 20 = 100");
    assert_eq!(CorpusSlice::Supplemental.approx_count(), 20);
    assert_eq!(
        cluster_count + CorpusSlice::Supplemental.approx_count(),
        CorpusSlice::Full.approx_count()
    );
}

#[test]
fn supplemental_slice_matches_all_prefixes() {
    let slice = CorpusSlice::Supplemental;
    assert!(slice.matches_doc_id("test-code-001"));
    assert!(slice.matches_doc_id("test-config-001"));
    assert!(slice.matches_doc_id("test-adversarial-001"));
    assert!(slice.matches_doc_id("test-log-001"));
    assert!(!slice.matches_doc_id("test-rust-001"));
}

#[test]
fn feature_toggles_active_count_zero_for_default() {
    assert_eq!(FeatureToggles::default().active_count(), 0);
}

#[test]
fn feature_toggles_active_count_matches_toggles() {
    let toggles = FeatureToggles {
        explain: true,
        mmr: true,
        ..FeatureToggles::default()
    };
    assert_eq!(toggles.active_count(), 2);
}

#[test]
fn all_lanes_have_bead_refs() {
    let catalog = lane_catalog();
    for lane in &catalog {
        if lane.id != "baseline" {
            assert!(
                !lane.bead_refs.is_empty(),
                "lane {} has no bead refs",
                lane.id
            );
        }
    }
}

#[test]
fn all_lanes_have_corpus_slices() {
    for lane in &lane_catalog() {
        assert!(
            !lane.corpus_slices.is_empty(),
            "lane {} has no corpus slices",
            lane.id
        );
    }
}

#[test]
fn negation_lanes_have_negation_queries_toggle() {
    for lane in &lane_catalog() {
        if lane.query_slice.include_negated {
            assert!(
                lane.toggles.negation_queries,
                "lane {} has include_negated but negation_queries is false",
                lane.id
            );
        }
    }
}

#[test]
fn display_format_includes_lane_id() {
    let lane = lane_by_id("explain_mmr").unwrap();
    let display = lane.to_display_string();
    assert!(display.contains("explain_mmr"));
    assert!(display.contains("High"));
}

#[test]
fn corpus_slice_full_matches_any_doc_id() {
    assert!(CorpusSlice::Full.matches_doc_id("test-rust-001"));
    assert!(CorpusSlice::Full.matches_doc_id("test-ml-999"));
    assert!(CorpusSlice::Full.matches_doc_id("completely-random-id"));
    assert!(CorpusSlice::Full.matches_doc_id(""));
}

#[test]
fn corpus_slice_full_id_prefixes_empty() {
    assert!(CorpusSlice::Full.id_prefixes().is_empty());
}

#[test]
fn corpus_slice_no_cross_match() {
    assert!(!CorpusSlice::Rust.matches_doc_id("test-ml-001"));
    assert!(!CorpusSlice::Ml.matches_doc_id("test-cooking-001"));
    assert!(!CorpusSlice::Cooking.matches_doc_id("test-sysadmin-001"));
    assert!(!CorpusSlice::Sysadmin.matches_doc_id("test-rust-001"));
    assert!(!CorpusSlice::Mixed.matches_doc_id("test-code-001"));
}

#[test]
fn risk_level_ordering() {
    assert!(RiskLevel::Low < RiskLevel::Medium);
    assert!(RiskLevel::Medium < RiskLevel::High);
    assert!(RiskLevel::Low < RiskLevel::High);
}

#[test]
fn calibrator_choice_hash_in_set() {
    let mut set = HashSet::new();
    set.insert(CalibratorChoice::Identity);
    set.insert(CalibratorChoice::Temperature);
    set.insert(CalibratorChoice::Platt);
    set.insert(CalibratorChoice::Isotonic);
    assert_eq!(set.len(), 4);
    // Inserting duplicate should not increase size.
    set.insert(CalibratorChoice::Platt);
    assert_eq!(set.len(), 4);
}

#[test]
fn query_slice_default_values() {
    let qs = QuerySlice::default();
    assert_eq!(qs.classes.len(), 3);
    assert!(!qs.include_negated);
    assert_eq!(qs.min_per_class, 2);
}

#[test]
fn feature_toggles_active_count_circuit_breaker_off() {
    let toggles = FeatureToggles {
        circuit_breaker: false,
        ..FeatureToggles::default()
    };
    // circuit_breaker defaults to true, so turning it off is 1 non-default.
    assert_eq!(toggles.active_count(), 1);
}

#[test]
fn feature_toggles_active_count_all_toggled() {
    let toggles = FeatureToggles {
        explain: true,
        mmr: true,
        negation_queries: true,
        prf: true,
        adaptive_fusion: true,
        calibration: CalibratorChoice::Platt,
        conformal: true,
        circuit_breaker: true, // default, so not counted
        feedback: true,
    };
    // 8 non-default: explain, mmr, negation, prf, adaptive, calibration, conformal, feedback
    assert_eq!(toggles.active_count(), 8);
}

#[test]
fn lanes_at_risk_low_returns_all() {
    let all = lanes_at_risk(RiskLevel::Low);
    assert_eq!(all.len(), lane_catalog().len());
}

#[test]
fn lanes_at_risk_medium_excludes_low() {
    let medium_plus = lanes_at_risk(RiskLevel::Medium);
    for lane in &medium_plus {
        assert!(
            lane.risk >= RiskLevel::Medium,
            "lane {} has risk {:?} but should be >= Medium",
            lane.id,
            lane.risk
        );
    }
    assert!(medium_plus.len() < lane_catalog().len());
}
