//! Discovery query translation and search delegation.

use testypf_core::discovery::DiscoveryManager;
use testypf_core::discovery::DiscoveryQuery;
use testypf_core::discovery::DiscoverySearchEngine;
use testypf_core::discovery::FontDiscoveryResult;
use testypf_core::discovery::RawFaceMatch;
use testypf_core::discovery::SearchCriteria;
use testypf_core::TestypfError;

#[test]
fn discovery_manager_initializes_with_platform_roots() {
    let dm = DiscoveryManager::new();
    // Default roots are injected by the application; a fresh manager
    // has none until the platform directories are supplied.
    assert!(dm.default_roots().is_empty());

    let with = DiscoveryManager::with_roots(vec!["/usr/share/fonts".to_string()]);
    assert_eq!(with.default_roots(), &vec!["/usr/share/fonts".to_string()]);
}

#[test]
fn search_criteria_defaults_are_empty() {
    let criteria = SearchCriteria::default();
    assert!(criteria.name_pattern.is_none());
    assert!(criteria.features.is_empty());
    assert!(criteria.scripts.is_empty());
    assert!(criteria.axes.is_empty());
    assert!(!criteria.variable_only);
    assert!(!criteria.follow_symlinks);
}

#[test]
fn empty_criteria_build_an_unconstrained_query() {
    let dm = DiscoveryManager::new();
    let query = dm
        .build_query(&SearchCriteria::default())
        .expect("empty criteria must build");

    assert!(query.features.is_empty());
    assert!(query.scripts.is_empty());
    assert!(query.axes.is_empty());
    assert!(!query.variable_only);
    assert!(query.name_patterns.is_empty());
}

#[test]
fn tags_are_parsed_into_their_big_endian_values() {
    let dm = DiscoveryManager::new();
    let criteria = SearchCriteria {
        features: vec!["liga".to_string()],
        axes: vec!["wght".to_string()],
        variable_only: true,
        ..SearchCriteria::default()
    };

    let query = dm.build_query(&criteria).expect("valid tags must build");

    assert_eq!(query.features, vec![u32::from_be_bytes(*b"liga")]);
    assert_eq!(query.axes, vec![u32::from_be_bytes(*b"wght")]);
    assert!(query.variable_only);
}

#[test]
fn short_tags_are_padded_with_spaces() {
    let dm = DiscoveryManager::new();
    let criteria = SearchCriteria {
        scripts: vec!["it".to_string()],
        ..SearchCriteria::default()
    };

    let query = dm.build_query(&criteria).expect("a short tag is valid");

    assert_eq!(query.scripts, vec![u32::from_be_bytes(*b"it  ")]);
}

#[test]
fn a_malformed_feature_tag_names_the_feature_category() {
    let dm = DiscoveryManager::new();
    let criteria = SearchCriteria {
        features: vec!["toolongtag".to_string()],
        ..SearchCriteria::default()
    };

    let err = dm.build_query(&criteria).expect_err("the build must fail");

    match err {
        TestypfError::DiscoveryFailed(m) => {
            assert!(m.starts_with("Invalid feature: "), "got: {m}");
        }
        other => panic!("expected DiscoveryFailed, got {other:?}"),
    }
}

#[test]
fn a_malformed_axis_tag_names_the_axis_category() {
    let dm = DiscoveryManager::new();
    let criteria = SearchCriteria {
        axes: vec!["".to_string()],
        ..SearchCriteria::default()
    };

    let err = dm.build_query(&criteria).expect_err("the build must fail");

    match err {
        TestypfError::DiscoveryFailed(m) => {
            assert!(m.starts_with("Invalid axis: "), "got: {m}");
        }
        other => panic!("expected DiscoveryFailed, got {other:?}"),
    }
}

#[test]
fn an_invalid_name_pattern_fails_the_build() {
    let dm = DiscoveryManager::new();
    let criteria = SearchCriteria {
        name_pattern: Some("[unclosed".to_string()),
        ..SearchCriteria::default()
    };

    let err = dm.build_query(&criteria).expect_err("the build must fail");

    match err {
        TestypfError::DiscoveryFailed(m) => {
            assert!(m.starts_with("Invalid name pattern: "), "got: {m}");
        }
        other => panic!("expected DiscoveryFailed, got {other:?}"),
    }
}

#[test]
fn a_valid_name_pattern_is_compiled_into_the_query() {
    let dm = DiscoveryManager::new();
    let criteria = SearchCriteria {
        name_pattern: Some("Mono.*".to_string()),
        ..SearchCriteria::default()
    };

    let query = dm.build_query(&criteria).expect("a valid pattern builds");

    assert_eq!(query.name_patterns.len(), 1);
    assert!(query.name_patterns[0].is_match("MonoLisa"));
}

struct MockEngine {
    seen_roots: Vec<String>,
    seen_symlinks: Option<bool>,
    seen_jobs: Option<Option<u32>>,
    reply: Result<Vec<RawFaceMatch>, String>,
}

impl DiscoverySearchEngine for MockEngine {
    fn search(
        &mut self,
        roots: &Vec<String>,
        _query: &DiscoveryQuery,
        follow_symlinks: bool,
        jobs: Option<u32>,
    ) -> Result<Vec<RawFaceMatch>, String> {
        self.seen_roots = roots.clone();
        self.seen_symlinks = Some(follow_symlinks);
        self.seen_jobs = Some(jobs);
        match &self.reply {
            Ok(ms) => Ok(ms
                .iter()
                .map(|m| RawFaceMatch {
                    path: m.path.clone(),
                    ttc_index: m.ttc_index,
                    names: m.names.clone(),
                    feature_tags: m.feature_tags.clone(),
                    script_tags: m.script_tags.clone(),
                    is_variable: m.is_variable,
                })
                .collect()),
            Err(e) => Err(e.clone()),
        }
    }
}

#[test]
fn search_in_maps_engine_matches_into_results() {
    let dm = DiscoveryManager::new();
    let mut engine = MockEngine {
        seen_roots: Vec::new(),
        seen_symlinks: None,
        seen_jobs: None,
        reply: Ok(vec![RawFaceMatch {
            path: "/fonts/Noto.ttc".to_string(),
            ttc_index: Some(1),
            names: vec!["Noto Sans".to_string()],
            feature_tags: vec!["liga".to_string()],
            script_tags: vec!["latn".to_string()],
            is_variable: true,
        }]),
    };
    let criteria = SearchCriteria {
        follow_symlinks: true,
        ..SearchCriteria::default()
    };
    let roots = vec!["/fonts".to_string()];

    let results = dm
        .search_in(&mut engine, &roots, &criteria)
        .expect("search should succeed");

    assert_eq!(engine.seen_roots, roots);
    assert_eq!(engine.seen_symlinks, Some(true));
    assert_eq!(engine.seen_jobs, Some(None), "the concurrency hint is fixed");
    assert_eq!(results.len(), 1);
    assert_eq!(results[0].path, "/fonts/Noto.ttc");
    assert_eq!(results[0].ttc_index, Some(1));
    assert_eq!(results[0].names, vec!["Noto Sans".to_string()]);
    assert_eq!(results[0].features, vec!["liga".to_string()]);
    assert_eq!(results[0].scripts, vec!["latn".to_string()]);
    assert!(results[0].is_variable);
}

#[test]
fn search_system_uses_the_default_roots_and_wraps_engine_failures() {
    let dm = DiscoveryManager::with_roots(vec!["/sys/fonts".to_string()]);
    let mut engine = MockEngine {
        seen_roots: Vec::new(),
        seen_symlinks: None,
        seen_jobs: None,
        reply: Err("walk failed".to_string()),
    };

    let err = dm
        .search_system(&mut engine, &SearchCriteria::default())
        .expect_err("the engine failure must surface");

    assert_eq!(engine.seen_roots, vec!["/sys/fonts".to_string()]);
    assert_eq!(
        err,
        TestypfError::DiscoveryFailed("walk failed".to_string())
    );
}

#[test]
fn a_face_match_carries_over_field_for_field() {
    let result = FontDiscoveryResult::from_match(RawFaceMatch {
        path: "/fonts/One.otf".to_string(),
        ttc_index: None,
        names: vec!["One".to_string()],
        feature_tags: vec!["smcp".to_string()],
        script_tags: vec!["cyrl".to_string()],
        is_variable: false,
    });

    assert_eq!(result.path, "/fonts/One.otf");
    assert_eq!(result.ttc_index, None);
    assert_eq!(result.names, vec!["One".to_string()]);
    assert_eq!(result.features, vec!["smcp".to_string()]);
    assert_eq!(result.scripts, vec!["cyrl".to_string()]);
    assert!(!result.is_variable);
}
