use conv_memory::search::{ensure_valid_meta_key, is_finite_score, row_is_candidate, SELECT_TURNS};
use conv_memory::{plan_search, rank_results, SearchError, SearchParams, SearchPlan, SearchResult};

fn l2_norm(vector: &[f32]) -> f32 {
    vector.iter().map(|v| (*v as f64) * (*v as f64)).sum::<f64>().sqrt() as f32
}

fn cosine_similarity(query: &[f32], candidate: &[f32]) -> f32 {
    let query_norm = l2_norm(query);
    let candidate_norm = l2_norm(candidate);
    if candidate_norm == 0.0 {
        return 0.0;
    }
    let dot = query.iter().zip(candidate.iter()).map(|(a, b)| (*a as f64) * (*b as f64)).sum::<f64>();
    (dot / ((query_norm as f64) * (candidate_norm as f64))) as f32
}

fn scored(conversation_id: &str, assistant_text: &str, score: f32) -> SearchResult {
    SearchResult {
        conversation_id: conversation_id.to_string(),
        turn_index: 0,
        score_bits: score.to_bits(),
        user_text: None,
        assistant_text: Some(assistant_text.to_string()),
    }
}

fn ids(results: &[SearchResult]) -> Vec<&str> {
    results.iter().map(|r| r.conversation_id.as_str()).collect()
}

#[test]
fn filters_and_ranks_results() {
    let alpha = [1.0f32, 0.0];
    let beta = [0.0f32, 1.0];

    let mut params = SearchParams::new(5);
    params.meta_equals.push(("project", "alpha"));
    let plan = plan_search(2, &params).unwrap();
    match plan {
        SearchPlan::Query(query) => {
            assert!(query.sql.contains("json_extract(c.meta_json, '$.project') = ?"));
            assert_eq!(query.values, vec!["alpha"]);
        }
        SearchPlan::Empty => panic!("a query is expected"),
    }
    let query = [1.0f32, 0.0];
    let results = rank_results(
        vec![scored("alpha", "alpha result", cosine_similarity(&query, &alpha))],
        params.limit,
    );
    assert_eq!(results.len(), 1);
    assert_eq!(results[0].conversation_id, "alpha");
    assert!(results[0].assistant_text.as_ref().unwrap().contains("alpha"));

    let query = [0.0f32, 1.0];
    let results = rank_results(
        vec![
            scored("alpha", "alpha result", cosine_similarity(&query, &alpha)),
            scored("beta", "beta result", cosine_similarity(&query, &beta)),
        ],
        SearchParams::new(5).limit,
    );
    assert_eq!(results.len(), 2);
    assert_eq!(results[0].conversation_id, "beta");
}

#[test]
fn rejects_bad_meta_keys() {
    let params = SearchParams {
        meta_equals: vec![("project'; DROP TABLE --", "alpha")],
        conversation_ids: Vec::new(),
        limit: 5,
        prefetch: None,
    };
    let err = plan_search(1, &params).unwrap_err();
    assert!(matches!(err, SearchError::InvalidMetaKey(_)));
}

#[test]
fn ranking_reverses_with_the_query() {
    let first = [1.0f32, 0.0];
    let second = [0.0f32, 1.0];
    let query = [1.0f32, 0.0];
    let results = rank_results(
        vec![
            scored("second", "", cosine_similarity(&query, &second)),
            scored("first", "", cosine_similarity(&query, &first)),
        ],
        10,
    );
    assert_eq!(ids(&results), vec!["first", "second"]);
    assert!(f32::from_bits(results[0].score_bits) > f32::from_bits(results[1].score_bits));
    let query = [0.0f32, 1.0];
    let results = rank_results(
        vec![
            scored("first", "", cosine_similarity(&query, &first)),
            scored("second", "", cosine_similarity(&query, &second)),
        ],
        10,
    );
    assert_eq!(ids(&results), vec!["second", "first"]);
}

#[test]
fn empty_query_or_zero_limit_finds_nothing() {
    let bad = SearchParams {
        meta_equals: vec![("bad key", "v")],
        conversation_ids: vec!["c"],
        limit: 5,
        prefetch: None,
    };
    assert!(matches!(plan_search(0, &bad), Ok(SearchPlan::Empty)));
    let zero = SearchParams::new(0);
    assert!(matches!(plan_search(3, &zero), Ok(SearchPlan::Empty)));
    assert!(rank_results(vec![scored("a", "", 1.0)], 0).is_empty());
}

#[test]
fn the_first_bad_key_is_reported() {
    let params = SearchParams {
        meta_equals: vec![("ok.key", "1"), ("semi;colon", "2"), ("quo\"te", "3")],
        conversation_ids: Vec::new(),
        limit: 1,
        prefetch: None,
    };
    match plan_search(1, &params) {
        Err(SearchError::InvalidMetaKey(key)) => assert_eq!(key, "semi;colon"),
        other => panic!("unexpected outcome {:?}", other),
    }
}

#[test]
fn query_text_and_values_follow_the_filters() {
    let params = SearchParams {
        meta_equals: vec![("project", "alpha"), ("git.branch-name", "main")],
        conversation_ids: vec!["c1", "c2", "c3"],
        limit: 5,
        prefetch: None,
    };
    match plan_search(4, &params).unwrap() {
        SearchPlan::Query(query) => {
            let expected = format!(
                "{}{}{}{}{}",
                SELECT_TURNS,
                " AND t.conversation_id IN (?, ?, ?)",
                " AND json_extract(c.meta_json, '$.project') = ?",
                " AND json_extract(c.meta_json, '$.git.branch-name') = ?",
                " LIMIT ?"
            );
            assert_eq!(query.sql, expected);
            assert_eq!(query.values, vec!["c1", "c2", "c3", "alpha", "main"]);
            assert_eq!(query.prefetch, 40);
        }
        SearchPlan::Empty => panic!("a query is expected"),
    }
    match plan_search(4, &SearchParams::new(2)).unwrap() {
        SearchPlan::Query(query) => {
            assert_eq!(query.sql, format!("{} LIMIT ?", SELECT_TURNS));
            assert!(query.values.is_empty());
            assert_eq!(query.prefetch, 16);
        }
        SearchPlan::Empty => panic!("a query is expected"),
    }
}

#[test]
fn prefetch_is_given_or_eight_times_the_limit() {
    let mut params = SearchParams::new(7);
    params.prefetch = Some(3);
    match plan_search(1, &params).unwrap() {
        SearchPlan::Query(query) => assert_eq!(query.prefetch, 3),
        SearchPlan::Empty => panic!("a query is expected"),
    }
    match plan_search(1, &SearchParams::new(usize::MAX)).unwrap() {
        SearchPlan::Query(query) => assert_eq!(query.prefetch, usize::MAX),
        SearchPlan::Empty => panic!("a query is expected"),
    }
    assert_eq!(SearchParams::default().limit, 10);
    assert!(SearchParams::default().prefetch.is_none());
    assert!(SearchParams::default().meta_equals.is_empty());
}

#[test]
fn meta_keys_are_dotted_paths_of_plain_segments() {
    assert!(ensure_valid_meta_key("project").is_ok());
    assert!(ensure_valid_meta_key("a.b_c-d.E9").is_ok());
    for bad in ["", ".", "a..b", ".a", "a.", "a b", "a'b", "a\"b", "a;b", "é", "a.b c", "$"] {
        match ensure_valid_meta_key(bad) {
            Err(SearchError::InvalidMetaKey(key)) => assert_eq!(key, bad),
            other => panic!("{:?} gave {:?}", bad, other),
        }
    }
}

#[test]
fn ranking_is_stable_drops_what_is_not_finite_and_cuts() {
    let results = rank_results(
        vec![
            scored("a", "", 0.5),
            scored("nan", "", f32::NAN),
            scored("b", "", 0.9),
            scored("c", "", 0.5),
            scored("inf", "", f32::INFINITY),
            scored("d", "", -0.25),
            scored("ninf", "", f32::NEG_INFINITY),
            scored("e", "", 0.0),
            scored("f", "", -0.0),
            scored("g", "", -1.0),
            scored("h", "", 0.9),
        ],
        10,
    );
    assert_eq!(ids(&results), vec!["b", "h", "a", "c", "e", "f", "d", "g"]);
    let results = rank_results(
        vec![scored("a", "", 0.5), scored("b", "", 0.9), scored("c", "", 0.5), scored("d", "", 0.7)],
        3,
    );
    assert_eq!(ids(&results), vec!["b", "d", "a"]);
    assert!(rank_results(Vec::new(), 4).is_empty());
}

#[test]
fn finite_scores_are_told_by_their_bits() {
    assert!(is_finite_score(0.0f32.to_bits()));
    assert!(is_finite_score((-0.0f32).to_bits()));
    assert!(is_finite_score(f32::MAX.to_bits()));
    assert!(is_finite_score(f32::MIN.to_bits()));
    assert!(is_finite_score(f32::MIN_POSITIVE.to_bits()));
    assert!(!is_finite_score(f32::INFINITY.to_bits()));
    assert!(!is_finite_score(f32::NEG_INFINITY.to_bits()));
    assert!(!is_finite_score(f32::NAN.to_bits()));
    assert!(!is_finite_score((-f32::NAN).to_bits()));
}

#[test]
fn rows_are_candidates_by_index_and_dimension() {
    assert!(row_is_candidate(0, 8, 2));
    assert!(row_is_candidate(5, 4, 1));
    assert!(!row_is_candidate(-1, 8, 2));
    assert!(!row_is_candidate(0, 0, 0));
    assert!(!row_is_candidate(0, 7, 2));
    assert!(!row_is_candidate(0, 8, 3));
}
